use vstd::prelude::*;

verus! {

broadcast use vstd::string::group_string_axioms;

/// An ASCII letter.
pub open spec fn is_alpha(c: char) -> bool {
    ('a' <= c && c <= 'z') || ('A' <= c && c <= 'Z')
}

/// An ASCII digit.
pub open spec fn is_digit(c: char) -> bool {
    '0' <= c && c <= '9'
}

/// A lower-case hexadecimal digit.
pub open spec fn is_lower_hex(c: char) -> bool {
    is_digit(c) || ('a' <= c && c <= 'f')
}

/// `s` matches `^[a-zA-Z0-9][a-zA-Z0-9.\-]*$`.
pub open spec fn valid_node_id(s: Seq<char>) -> bool {
    &&& s.len() >= 1
    &&& is_alpha(s[0]) || is_digit(s[0])
    &&& forall|i: int| 0 <= i < s.len() ==> is_alpha(s[i]) || is_digit(s[i]) || s[i] == '.' || s[i] == '-'
}

/// `s` matches `^[a-zA-Z][a-zA-Z0-9\-]*$`.
pub open spec fn valid_agent_name(s: Seq<char>) -> bool {
    &&& s.len() >= 1
    &&& is_alpha(s[0])
    &&& forall|i: int| 0 <= i < s.len() ==> is_alpha(s[i]) || is_digit(s[i]) || s[i] == '-'
}

/// The state that a recognizer of `^[0-9]+(\.[0-9]+)*(-rc[0-9]+)?(-[0-9]+-g[a-f0-9]+)?$` reaches
/// after reading `c` in state `state`; `0` is the start and `-1` rejects.
///
/// 1: in a number of the dotted version; 2: after a dot; 3: after the `-` that ends the version;
/// 4, 5: inside `rc`; 6: in the release-candidate number; 7: in the commit count; 8: after the `-`
/// that ends it; 9: after `g`; 10: after the `-` that ends the release-candidate number;
/// 11: in the commit hash.
pub open spec fn version_step(state: int, c: char) -> int {
    if state == 0 || state == 2 {
        if is_digit(c) { 1 } else { -1 }
    } else if state == 1 {
        if is_digit(c) { 1 } else if c == '.' { 2 } else if c == '-' { 3 } else { -1 }
    } else if state == 3 {
        if c == 'r' { 4 } else if is_digit(c) { 7 } else { -1 }
    } else if state == 4 {
        if c == 'c' { 5 } else { -1 }
    } else if state == 5 {
        if is_digit(c) { 6 } else { -1 }
    } else if state == 6 {
        if is_digit(c) { 6 } else if c == '-' { 10 } else { -1 }
    } else if state == 10 {
        if is_digit(c) { 7 } else { -1 }
    } else if state == 7 {
        if is_digit(c) { 7 } else if c == '-' { 8 } else { -1 }
    } else if state == 8 {
        if c == 'g' { 9 } else { -1 }
    } else if state == 9 || state == 11 {
        if is_lower_hex(c) { 11 } else { -1 }
    } else {
        -1
    }
}

/// The recognizer's state after reading all of `s`.
pub open spec fn version_state(s: Seq<char>) -> int
    decreases s.len(),
{
    if s.len() == 0 {
        0
    } else {
        version_step(version_state(s.drop_last()), s.last())
    }
}

/// `s` matches `^[0-9]+(\.[0-9]+)*(-rc[0-9]+)?(-[0-9]+-g[a-f0-9]+)?$`.
pub open spec fn valid_agent_version(s: Seq<char>) -> bool {
    let state = version_state(s);
    state == 1 || state == 6 || state == 11
}

/// A component of a user agent: a name and a version.
#[derive(Debug, Clone)]
pub struct Agent {
    name: String,
    version: String,
}

/// The content of an agent.
pub struct AgentView {
    pub name: Seq<char>,
    pub version: Seq<char>,
}

impl View for Agent {
    type V = AgentView;

    closed spec fn view(&self) -> AgentView {
        AgentView { name: self.name@, version: self.version@ }
    }
}

impl AgentView {
    /// The text of the agent, `name/version`.
    pub open spec fn text(self) -> Seq<char> {
        self.name + "/"@ + self.version
    }
}

impl Agent {
    /// Creates an agent; the name must match `^[a-zA-Z][a-zA-Z0-9\-]*$` and the version
    /// `^[0-9]+(\.[0-9]+)*(-rc[0-9]+)?(-[0-9]+-g[a-f0-9]+)?$`.
    pub fn new(name: &str, version: &str) -> (res: Agent)
        requires
            valid_agent_name(name@),
            valid_agent_version(version@),
        ensures
            res@ == (AgentView { name: name@, version: version@ }),
    {
        Agent { name: name.to_string(), version: version.to_string() }
    }

    /// Returns the agent name.
    pub fn name(&self) -> (res: &str)
        ensures
            res@ == self@.name,
    {
        self.name.as_str()
    }

    /// Returns the agent version.
    pub fn version(&self) -> (res: &str)
        ensures
            res@ == self@.version,
    {
        self.version.as_str()
    }

    /// Returns the text of the agent, `name/version`.
    pub fn to_string(&self) -> (res: String)
        ensures
            res@ == self@.text(),
    {
        let mut s = self.name.clone();
        s.append("/");
        s.append(self.version.as_str());
        s
    }
}

/// The informational agents as text, each preceded by a space.
pub open spec fn agents_text(agents: Seq<AgentView>) -> Seq<char>
    decreases agents.len(),
{
    if agents.len() == 0 {
        Seq::empty()
    } else {
        agents_text(agents.drop_last()) + " "@ + agents.last().text()
    }
}

/// A user agent: a primary agent, an optional node ID and further informational agents.
#[derive(Debug, Clone)]
pub struct UserAgent {
    node_id: Option<String>,
    primary: Agent,
    informational: Vec<Agent>,
}

/// The content of a user agent.
pub struct UserAgentView {
    pub node_id: Option<Seq<char>>,
    pub primary: AgentView,
    pub informational: Seq<AgentView>,
}

impl View for UserAgent {
    type V = UserAgentView;

    closed spec fn view(&self) -> UserAgentView {
        UserAgentView {
            node_id: match self.node_id {
                Some(n) => Some(n@),
                None => None,
            },
            primary: self.primary@,
            informational: self.informational@.map_values(|a: Agent| a@),
        }
    }
}

impl UserAgentView {
    /// The text of the user agent: the primary agent, then ` (nodeId:<id>)` if a node ID is set,
    /// then each informational agent preceded by a space.
    pub open spec fn text(self) -> Seq<char> {
        let node = match self.node_id {
            Some(id) => " (nodeId:"@ + id + ")"@,
            None => Seq::empty(),
        };
        self.primary.text() + node + agents_text(self.informational)
    }
}

impl UserAgent {
    /// Creates a user agent with a primary agent, no node ID and no informational agents.
    pub fn new(primary: Agent) -> (res: UserAgent)
        ensures
            res@ == (UserAgentView {
                node_id: None,
                primary: primary@,
                informational: Seq::empty(),
            }),
    {
        let res = UserAgent { node_id: None, primary, informational: Vec::new() };
        assert(res@.informational =~= Seq::<AgentView>::empty());
        res
    }

    /// Appends an informational agent.
    pub fn push_agent(&mut self, agent: Agent)
        ensures
            final(self)@ == (UserAgentView {
                informational: old(self)@.informational.push(agent@),
                ..old(self)@
            }),
    {
        self.informational.push(agent);
        assert(self@.informational =~= old(self)@.informational.push(agent@));
    }

    /// Sets the node ID, which must match `^[a-zA-Z0-9][a-zA-Z0-9.\-]*$`.
    pub fn set_node_id(&mut self, node_id: &str)
        requires
            valid_node_id(node_id@),
        ensures
            final(self)@ == (UserAgentView { node_id: Some(node_id@), ..old(self)@ }),
    {
        self.node_id = Some(node_id.to_string());
        assert(self@.informational =~= old(self)@.informational);
    }

    /// Returns the node ID, if set.
    pub fn node_id(&self) -> (res: Option<&str>)
        ensures
            match res {
                Some(s) => self@.node_id == Some(s@),
                None => self@.node_id is None,
            },
    {
        match &self.node_id {
            Some(s) => Some(s.as_str()),
            None => None,
        }
    }

    /// Returns the primary agent.
    pub fn primary(&self) -> (res: &Agent)
        ensures
            res@ == self@.primary,
    {
        &self.primary
    }

    /// Returns the informational agents, in the order they were added.
    pub fn informational(&self) -> (res: &[Agent])
        ensures
            res@.map_values(|a: Agent| a@) == self@.informational,
    {
        self.informational.as_slice()
    }

    /// Returns the text of the user agent, as sent in the `User-Agent` header.
    pub fn to_string(&self) -> (res: String)
        ensures
            res@ == self@.text(),
    {
        let mut s = self.primary.to_string();
        match &self.node_id {
            Some(id) => {
                s.append(" (nodeId:");
                s.append(id.as_str());
                s.append(")");
            },
            None => {},
        }
        let ghost head = s@;
        let mut i: usize = 0;
        while i < self.informational.len()
            invariant
                i <= self.informational@.len(),
                s@ == head + agents_text(self@.informational.take(i as int)),
            decreases self.informational@.len() - i,
        {
            s.append(" ");
            let text = self.informational[i].to_string();
            s.append(text.as_str());
            assert(self@.informational.take(i + 1).drop_last() =~= self@.informational.take(
                i as int,
            ));
            i = i + 1;
        }
        assert(self@.informational.take(self.informational@.len() as int) =~= self@.informational);
        s
    }
}

/// The recognizer's state after a text is its state after the text's start, carried through
/// the rest.
proof fn lemma_version_state_split(p: Seq<char>, q: Seq<char>)
    ensures
        q.len() > 0 ==> version_state(p + q) == version_step(version_state(p + q.drop_last()), q.last()),
{
    if q.len() > 0 {
        assert((p + q).drop_last() =~= p + q.drop_last());
        assert((p + q).last() == q.last());
    }
}

/// Reading a run of digits from a state from which a digit leads to `to`, and in which a digit
/// stays, ends in `to`.
proof fn lemma_version_digits(p: Seq<char>, d: Seq<char>, to: int)
    requires
        d.len() > 0,
        forall|i: int| 0 <= i < d.len() ==> is_digit(#[trigger] d[i]),
        forall|c: char| is_digit(c) ==> #[trigger] version_step(version_state(p), c) == to,
        forall|c: char| is_digit(c) ==> #[trigger] version_step(to, c) == to,
    ensures
        version_state(p + d) == to,
    decreases d.len(),
{
    lemma_version_state_split(p, d);
    let e = d.drop_last();
    if e.len() == 0 {
        assert(p + e =~= p);
    } else {
        lemma_version_digits(p, e, to);
    }
    assert(is_digit(d[d.len() - 1]));
}

/// A version is one or more dot-separated numbers, optionally followed by a release-candidate
/// number: a number alone, two numbers joined by a dot, and a number with `-rc` and a number
/// are versions; nothing, a number ending in a dot, and a text starting with a dot are not.
pub proof fn lemma_versions(a: Seq<char>, b: Seq<char>)
    requires
        a.len() > 0,
        b.len() > 0,
        forall|i: int| 0 <= i < a.len() ==> is_digit(#[trigger] a[i]),
        forall|i: int| 0 <= i < b.len() ==> is_digit(#[trigger] b[i]),
    ensures
        valid_agent_version(a),
        valid_agent_version(a + seq!['.'] + b),
        valid_agent_version(a + seq!['-', 'r', 'c'] + b),
        !valid_agent_version(Seq::empty()),
        !valid_agent_version(a + seq!['.']),
        !valid_agent_version(seq!['.'] + a),
{
    let e = Seq::<char>::empty();
    assert(e + a =~= a);
    lemma_version_digits(e, a, 1);
    let dot = a + seq!['.'];
    lemma_version_state_split(a, seq!['.']);
    assert(a + seq!['.'].drop_last() =~= a);
    assert(version_state(dot) == 2);
    lemma_version_digits(dot, b, 1);
    let rc = a + seq!['-', 'r', 'c'];
    let r1 = a + seq!['-'];
    let r2 = a + seq!['-', 'r'];
    lemma_version_state_split(a, seq!['-']);
    assert(a + seq!['-'].drop_last() =~= a);
    lemma_version_state_split(a, seq!['-', 'r']);
    assert(a + seq!['-', 'r'].drop_last() =~= r1);
    lemma_version_state_split(a, seq!['-', 'r', 'c']);
    assert(a + seq!['-', 'r', 'c'].drop_last() =~= r2);
    assert(version_state(r1) == 3);
    assert(version_state(r2) == 4);
    assert(version_state(rc) == 5);
    lemma_version_digits(rc, b, 6);
    let lead = seq!['.'] + a;
    lemma_version_state_split(seq!['.'], a);
    assert(version_state(seq!['.']) == -1) by {
        let one = seq!['.'];
        assert(one.drop_last() =~= Seq::<char>::empty());
        assert(version_state(one.drop_last()) == 0);
        assert(one.last() == '.');
        assert(version_state(one) == version_step(version_state(one.drop_last()), one.last()));
    }
    lemma_version_stuck(seq!['.'], a);
}

/// A rejected text stays rejected, whatever follows it.
proof fn lemma_version_stuck(p: Seq<char>, q: Seq<char>)
    requires
        version_state(p) == -1,
    ensures
        version_state(p + q) == -1,
    decreases q.len(),
{
    if q.len() == 0 {
        assert(p + q =~= p);
    } else {
        lemma_version_state_split(p, q);
        lemma_version_stuck(p, q.drop_last());
    }
}

} // verus!
