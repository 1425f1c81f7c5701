use vstd::prelude::*;

use crate::text::{lemma_views_push, split_on, split_str, str_eq, views};

verus! {

broadcast use vstd::string::group_string_axioms;

/// The values given for one request parameter, in the order they were added.
pub struct ParamValues {
    pub name: String,
    pub values: Vec<String>,
}

/// The content of request parameters: each name with its values, names in the order they were
/// first added.
pub type ParamList = Seq<(Seq<char>, Seq<Seq<char>>)>;

/// The content of one entry.
pub open spec fn entry_view(e: ParamValues) -> (Seq<char>, Seq<Seq<char>>) {
    (e.name@, views(e.values@))
}

/// No name occurs twice.
pub open spec fn names_unique(p: ParamList) -> bool {
    forall|i: int, j: int| 0 <= i < j < p.len() ==> p[i].0 != p[j].0
}

/// The position of `name` among the entries, if it is there.
pub open spec fn name_index(p: ParamList, name: Seq<char>) -> Option<int>
    decreases p.len(),
{
    if p.len() == 0 {
        None
    } else if p[0].0 == name {
        Some(0)
    } else {
        match name_index(p.drop_first(), name) {
            Some(i) => Some(i + 1),
            None => None,
        }
    }
}

/// `name_index` finds the entry carrying the name, and finds none when no entry carries it.
pub proof fn lemma_name_index(p: ParamList, name: Seq<char>)
    ensures
        match name_index(p, name) {
            Some(i) => 0 <= i < p.len() && p[i].0 == name && forall|j: int|
                0 <= j < i ==> p[j].0 != name,
            None => forall|j: int| 0 <= j < p.len() ==> p[j].0 != name,
        },
    decreases p.len(),
{
    if p.len() > 0 {
        lemma_name_index(p.drop_first(), name);
        if p[0].0 != name {
            assert forall|j: int| 1 <= j < p.len() implies p[j] == p.drop_first()[j - 1] by {}
        }
    }
}

/// The parameters of a request: path parameters fill the placeholders of its path pattern, and
/// the others become query parameters.
pub struct RequestParams {
    entries: Vec<ParamValues>,
}

impl View for RequestParams {
    type V = ParamList;

    closed spec fn view(&self) -> ParamList {
        self.entries@.map_values(|e: ParamValues| entry_view(e))
    }
}

/// A copy of a list of strings.
fn copy_strings(v: &Vec<String>) -> (res: Vec<String>)
    ensures
        views(res@) == views(v@),
{
    let mut out: Vec<String> = Vec::new();
    let mut i: usize = 0;
    while i < v.len()
        invariant
            i <= v@.len(),
            views(out@) == views(v@.take(i as int)),
        decreases v@.len() - i,
    {
        out.push(v[i].clone());
        assert(views(v@.take(i + 1)) =~= views(v@.take(i as int)).push(v@[i as int]@));
        assert(views(out@) =~= views(v@.take(i as int)).push(v@[i as int]@));
        i = i + 1;
    }
    assert(v@.take(v@.len() as int) =~= v@);
    out
}

impl RequestParams {
    #[verifier::type_invariant]
    closed spec fn inv(self) -> bool {
        names_unique(self@)
    }

    /// Creates an empty set of parameters.
    pub fn new() -> (res: RequestParams)
        ensures
            res@ == Seq::<(Seq<char>, Seq<Seq<char>>)>::empty(),
    {
        let res = RequestParams { entries: Vec::new() };
        assert(res@ =~= Seq::<(Seq<char>, Seq<Seq<char>>)>::empty());
        res
    }

    fn position(&self, name: &str) -> (res: Option<usize>)
        ensures
            match res {
                Some(i) => name_index(self@, name@) == Some(i as int),
                None => name_index(self@, name@) is None,
            },
    {
        proof {
            use_type_invariant(self);
            lemma_name_index(self@, name@);
        }
        let mut i: usize = 0;
        while i < self.entries.len()
            invariant
                i <= self.entries@.len(),
                self@.len() == self.entries@.len(),
                forall|j: int| 0 <= j < i ==> self@[j].0 != name@,
                match name_index(self@, name@) {
                    Some(k) => 0 <= k < self@.len() && self@[k].0 == name@ && forall|j: int|
                        0 <= j < k ==> self@[j].0 != name@,
                    None => forall|j: int| 0 <= j < self@.len() ==> self@[j].0 != name@,
                },
            decreases self.entries@.len() - i,
        {
            assert(self@[i as int] == entry_view(self.entries@[i as int]));
            if str_eq(self.entries[i].name.as_str(), name) {
                return Some(i);
            }
            i = i + 1;
        }
        None
    }

    /// Adds a value for the parameter `name`.
    ///
    /// A name that matches a placeholder of the path pattern gives a path parameter, which must
    /// receive exactly one value; any other name gives a query parameter, which may receive
    /// several.
    pub fn add(&mut self, name: &str, value: &str)
        ensures
            match name_index(old(self)@, name@) {
                Some(i) => final(self)@ == old(self)@.update(
                    i,
                    (name@, old(self)@[i].1.push(value@)),
                ),
                None => final(self)@ == old(self)@.push((name@, seq![value@])),
            },
    {
        proof {
            use_type_invariant(&*self);
            lemma_name_index(old(self)@, name@);
        }
        let mut entries = Vec::new();
        std::mem::swap(&mut entries, &mut self.entries);
        let ghost old_entries = entries@;
        match self.position_in(&entries, name) {
            Some(i) => {
                let mut values = Vec::new();
                std::mem::swap(&mut values, &mut entries[i].values);
                assert(views(values@) == old(self)@[i as int].1);
                let ghost before_push = values@;
                let v = value.to_string();
                values.push(v);
                proof {
                    lemma_views_push(before_push, v);
                }
                let e = ParamValues { name: name.to_string(), values };
                assert(entry_view(e) == (name@, old(self)@[i as int].1.push(value@)));
                entries.set(i, e);
                assert(entries@.map_values(|e: ParamValues| entry_view(e)) =~= old_entries.map_values(
                    |e: ParamValues| entry_view(e),
                ).update(i as int, (name@, old(self)@[i as int].1.push(value@))));
            },
            None => {
                let mut values = Vec::new();
                values.push(value.to_string());
                assert(views(values@) =~= seq![value@]);
                entries.push(ParamValues { name: name.to_string(), values });
                assert(entries@.map_values(|e: ParamValues| entry_view(e)) =~= old_entries.map_values(
                    |e: ParamValues| entry_view(e),
                ).push((name@, seq![value@])));
            },
        }
        self.entries = entries;
    }

    fn position_in(&self, entries: &Vec<ParamValues>, name: &str) -> (res: Option<usize>)
        ensures
            match res {
                Some(i) => name_index(entries@.map_values(|e: ParamValues| entry_view(e)), name@)
                    == Some(i as int),
                None => name_index(entries@.map_values(|e: ParamValues| entry_view(e)), name@) is None,
            },
    {
        let ghost p = entries@.map_values(|e: ParamValues| entry_view(e));
        proof {
            lemma_name_index(p, name@);
        }
        let mut i: usize = 0;
        while i < entries.len()
            invariant
                i <= entries@.len(),
                p == entries@.map_values(|e: ParamValues| entry_view(e)),
                forall|j: int| 0 <= j < i ==> p[j].0 != name@,
                match name_index(p, name@) {
                    Some(k) => 0 <= k < p.len() && p[k].0 == name@ && forall|j: int|
                        0 <= j < k ==> p[j].0 != name@,
                    None => forall|j: int| 0 <= j < p.len() ==> p[j].0 != name@,
                },
            decreases entries@.len() - i,
        {
            assert(p[i as int] == entry_view(entries@[i as int]));
            if str_eq(entries[i].name.as_str(), name) {
                return Some(i);
            }
            i = i + 1;
        }
        None
    }

    /// Removes the parameter `name`, returning its values.
    pub fn remove(&mut self, name: &str) -> (res: Option<Vec<String>>)
        ensures
            match name_index(old(self)@, name@) {
                Some(i) => res matches Some(v) && views(v@) == old(self)@[i].1 && final(self)@
                    == old(self)@.remove(i),
                None => res is None && final(self)@ == old(self)@,
            },
    {
        proof {
            use_type_invariant(&*self);
            lemma_name_index(old(self)@, name@);
        }
        match self.position(name) {
            Some(i) => {
                let mut entries = Vec::new();
                std::mem::swap(&mut entries, &mut self.entries);
                let ghost old_entries = entries@;
                let e = entries.remove(i);
                assert(old_entries.map_values(|e: ParamValues| entry_view(e))[i as int] == entry_view(
                    e,
                ));
                assert(entries@.map_values(|e: ParamValues| entry_view(e)) =~= old_entries.map_values(
                    |e: ParamValues| entry_view(e),
                ).remove(i as int));
                self.entries = entries;
                Some(e.values)
            },
            None => None,
        }
    }

    /// Returns the values of the parameter `name`, if it was given.
    pub fn get(&self, name: &str) -> (res: Option<&Vec<String>>)
        ensures
            match name_index(self@, name@) {
                Some(i) => res matches Some(v) && views(v@) == self@[i].1,
                None => res is None,
            },
    {
        proof {
            use_type_invariant(self);
            lemma_name_index(self@, name@);
        }
        match self.position(name) {
            Some(i) => {
                assert(self@[i as int] == entry_view(self.entries@[i as int]));
                Some(&self.entries[i].values)
            },
            None => None,
        }
    }

    /// Returns the entries, each name once, in the order the names were first added.
    pub fn entries(&self) -> (res: &Vec<ParamValues>)
        ensures
            res@.map_values(|e: ParamValues| entry_view(e)) == self@,
            names_unique(self@),
    {
        proof {
            use_type_invariant(self);
        }
        &self.entries
    }

    /// Returns a copy of the parameters.
    pub fn copy(&self) -> (res: RequestParams)
        ensures
            res@ == self@,
    {
        proof {
            use_type_invariant(self);
        }
        let mut entries: Vec<ParamValues> = Vec::new();
        let mut i: usize = 0;
        while i < self.entries.len()
            invariant
                i <= self.entries@.len(),
                names_unique(self@),
                entries@.map_values(|e: ParamValues| entry_view(e)) == self@.take(i as int),
            decreases self.entries@.len() - i,
        {
            let e = &self.entries[i];
            let ghost before = entries@;
            let copied = ParamValues { name: e.name.clone(), values: copy_strings(&e.values) };
            assert(entry_view(copied) == self@[i as int]);
            entries.push(copied);
            assert(self@.take(i + 1) =~= self@.take(i as int).push(self@[i as int]));
            assert(entries@.map_values(|e: ParamValues| entry_view(e)) =~= self@.take(i + 1));
            i = i + 1;
        }
        assert(self@.take(self.entries@.len() as int) =~= self@);
        RequestParams { entries }
    }
}

/// Why a path pattern could not be filled in.
pub enum PathError {
    /// The pattern does not start with `/`.
    MissingLeadingSlash,
    /// A placeholder of the pattern has no value.
    MissingValue { name: String },
    /// A placeholder of the pattern has more than one value.
    MultipleValues { name: String },
}

/// The content of a `PathError`.
pub enum PathFailure {
    MissingLeadingSlash,
    MissingValue(Seq<char>),
    MultipleValues(Seq<char>),
}

impl View for PathError {
    type V = PathFailure;

    open spec fn view(&self) -> PathFailure {
        match self {
            PathError::MissingLeadingSlash => PathFailure::MissingLeadingSlash,
            PathError::MissingValue { name } => PathFailure::MissingValue(name@),
            PathError::MultipleValues { name } => PathFailure::MultipleValues(name@),
        }
    }
}

/// The outcome of filling in path segments: the path segments to append and the parameters left
/// over for the query.
pub type Expansion = Result<(Seq<Seq<char>>, ParamList), PathFailure>;

/// Puts `prefix` in front of the segments of a successful expansion.
pub open spec fn prepend(prefix: Seq<Seq<char>>, r: Expansion) -> Expansion {
    match r {
        Ok((path, rest)) => Ok((prefix + path, rest)),
        Err(e) => Err(e),
    }
}

/// Fills in the segments of a path pattern, left to right. A segment `:name` takes the single
/// value of parameter `name` as one path segment; a segment `*name` takes it as one path segment
/// per `/`-separated piece; both remove the parameter, so that a name can be used once. Any other
/// segment is copied as it is.
pub open spec fn expand_segments(segments: Seq<Seq<char>>, params: ParamList) -> Expansion
    decreases segments.len(),
{
    if segments.len() == 0 {
        Ok((Seq::empty(), params))
    } else {
        let seg = segments[0];
        let rest = segments.drop_first();
        if seg.len() > 0 && (seg[0] == ':' || seg[0] == '*') {
            let name = seg.drop_first();
            match name_index(params, name) {
                None => Err(PathFailure::MissingValue(name)),
                Some(i) => if params[i].1.len() != 1 {
                    Err(PathFailure::MultipleValues(name))
                } else {
                    let value = params[i].1[0];
                    let pieces = if seg[0] == ':' {
                        seq![value]
                    } else {
                        split_on(value, '/')
                    };
                    prepend(pieces, expand_segments(rest, params.remove(i)))
                },
            }
        } else {
            prepend(seq![seg], expand_segments(rest, params))
        }
    }
}

/// Fills in a path pattern, which must start with `/`; the segments are the pieces between the
/// slashes after the leading one.
pub open spec fn expand_pattern(pattern: Seq<char>, params: ParamList) -> Expansion {
    if pattern.len() == 0 || pattern[0] != '/' {
        Err(PathFailure::MissingLeadingSlash)
    } else {
        expand_segments(split_on(pattern.drop_first(), '/'), params)
    }
}

proof fn lemma_prepend_assoc(a: Seq<Seq<char>>, b: Seq<Seq<char>>, r: Expansion)
    ensures
        prepend(a, prepend(b, r)) == prepend(a + b, r),
{
    match r {
        Ok((path, rest)) => {
            assert(a + (b + path) =~= (a + b) + path);
        },
        Err(_) => {},
    }
}

/// A pattern whose segments hold no placeholder is copied as it is, leaving every parameter for
/// the query string.
pub proof fn lemma_literal_segments(segments: Seq<Seq<char>>, params: ParamList)
    requires
        forall|k: int| 0 <= k < segments.len() ==> !(#[trigger] segments[k].len() > 0 && (segments[k][0] == ':'
            || segments[k][0] == '*')),
    ensures
        expand_segments(segments, params) == Ok::<(Seq<Seq<char>>, ParamList), PathFailure>((segments, params)),
    decreases segments.len(),
{
    if segments.len() > 0 {
        let rest = segments.drop_first();
        assert forall|k: int| 0 <= k < rest.len() implies !(#[trigger] rest[k].len() > 0 && (rest[k][0] == ':'
            || rest[k][0] == '*')) by {
            assert(rest[k] == segments[k + 1]);
        }
        lemma_literal_segments(rest, params);
        assert(!(segments[0].len() > 0 && (segments[0][0] == ':' || segments[0][0] == '*')));
        assert(expand_segments(segments, params) == prepend(seq![segments[0]], expand_segments(rest, params)));
        assert(seq![segments[0]] + rest =~= segments);
    } else {
        assert(segments =~= Seq::<Seq<char>>::empty());
    }
}

/// A placeholder `:name` takes the single value of parameter `name` as a path segment and
/// removes the parameter; a parameter that is missing, or given other than once, cannot fill
/// it. A pattern that does not start with `/` is refused.
pub proof fn lemma_placeholder(name: Seq<char>, params: ParamList, pattern: Seq<char>)
    ensures
        match name_index(params, name) {
            None => expand_segments(seq![seq![':'] + name], params) == Err::<(Seq<Seq<char>>, ParamList), PathFailure>(
                PathFailure::MissingValue(name),
            ),
            Some(i) => if params[i].1.len() == 1 {
                expand_segments(seq![seq![':'] + name], params) == Ok::<(Seq<Seq<char>>, ParamList), PathFailure>(
                    (seq![params[i].1[0]], params.remove(i)),
                )
            } else {
                expand_segments(seq![seq![':'] + name], params) == Err::<(Seq<Seq<char>>, ParamList), PathFailure>(
                    PathFailure::MultipleValues(name),
                )
            },
        },
        (pattern.len() == 0 || pattern[0] != '/') ==> expand_pattern(pattern, params) == Err::<
            (Seq<Seq<char>>, ParamList),
            PathFailure,
        >(PathFailure::MissingLeadingSlash),
{
    let seg = seq![':'] + name;
    assert(seg.drop_first() =~= name);
    assert(seg[0] == ':');
    let segs = seq![seg];
    assert(segs.drop_first() =~= Seq::<Seq<char>>::empty());
    assert(segs.len() == 1 && segs[0] == seg && seg.len() > 0);
    match name_index(params, name) {
        Some(i) => {
            if params[i].1.len() == 1 {
                let v = params[i].1[0];
                let tail = expand_segments(segs.drop_first(), params.remove(i));
                assert(tail == Ok::<(Seq<Seq<char>>, ParamList), PathFailure>((Seq::empty(), params.remove(i))));
                assert(expand_segments(segs, params) == prepend(seq![v], tail));
                assert(seq![v] + Seq::<Seq<char>>::empty() =~= seq![v]);
            }
        },
        None => {},
    }
}

/// Fills in the placeholders of `pattern` with `params`, returning the path segments to append to
/// the node's URL and the parameters left for the query string.
pub fn expand_path(pattern: &str, params: &RequestParams) -> (res: Result<
    (Vec<String>, RequestParams),
    PathError,
>)
    ensures
        match expand_pattern(pattern@, params@) {
            Ok((path, rest)) => res matches Ok((segments, remaining)) && views(segments@) == path
                && remaining@ == rest,
            Err(e) => res matches Err(err) && err@ == e,
        },
{
    let n = pattern.unicode_len();
    if n == 0 || pattern.get_char(0) != '/' {
        return Err(PathError::MissingLeadingSlash);
    }
    let body = pattern.substring_char(1, n);
    assert(body@ =~= pattern@.drop_first());
    let segments = split_str(body, '/');
    let ghost segs = split_on(pattern@.drop_first(), '/');
    let mut remaining = params.copy();
    let mut path: Vec<String> = Vec::new();
    proof {
        assert(segs.skip(0) =~= segs);
        assert(views(path@) =~= Seq::<Seq<char>>::empty());
        match expand_segments(segs, remaining@) {
            Ok((p, r)) => {
                assert(Seq::<Seq<char>>::empty() + p =~= p);
            },
            Err(_) => {},
        }
    }
    let mut i: usize = 0;
    while i < segments.len()
        invariant
            i <= segments@.len(),
            views(segments@) == segs,
            expand_pattern(pattern@, params@) == prepend(
                views(path@),
                expand_segments(segs.skip(i as int), remaining@),
            ),
        decreases segments@.len() - i,
    {
        let seg = segments[i].as_str();
        let ghost tail = segs.skip(i as int);
        assert(tail[0] == seg@);
        assert(tail.drop_first() =~= segs.skip(i + 1));
        let len = seg.unicode_len();
        let mut is_placeholder = false;
        let mut whole = false;
        if len > 0 {
            let first = seg.get_char(0);
            if first == ':' {
                is_placeholder = true;
                whole = true;
            } else if first == '*' {
                is_placeholder = true;
            }
        }
        if is_placeholder {
            let name = seg.substring_char(1, len);
            assert(name@ =~= seg@.drop_first());
            proof {
                lemma_name_index(remaining@, name@);
            }
            let ghost before = remaining@;
            let values = match remaining.remove(name) {
                Some(v) => v,
                None => {
                    return Err(PathError::MissingValue { name: name.to_string() });
                },
            };
            if values.len() != 1 {
                return Err(PathError::MultipleValues { name: name.to_string() });
            }
            let ghost old_path = views(path@);
            if whole {
                path.push(values[0].clone());
                proof {
                    assert(views(path@) =~= old_path + seq![values@[0]@]);
                    lemma_prepend_assoc(
                        old_path,
                        seq![values@[0]@],
                        expand_segments(segs.skip(i + 1), remaining@),
                    );
                }
            } else {
                let pieces = split_str(values[0].as_str(), '/');
                let mut k: usize = 0;
                while k < pieces.len()
                    invariant
                        k <= pieces@.len(),
                        views(path@) == old_path + views(pieces@).take(k as int),
                    decreases pieces@.len() - k,
                {
                    let ghost prev_path = path@;
                    path.push(pieces[k].clone());
                    proof {
                        lemma_views_push(prev_path, pieces@[k as int]);
                    }
                    assert(views(pieces@).take(k + 1) =~= views(pieces@).take(k as int).push(
                        pieces@[k as int]@,
                    ));
                    assert(views(path@) =~= old_path + views(pieces@).take(k + 1));
                    k = k + 1;
                }
                proof {
                    assert(views(pieces@).take(pieces@.len() as int) =~= views(pieces@));
                    lemma_prepend_assoc(
                        old_path,
                        views(pieces@),
                        expand_segments(segs.skip(i + 1), remaining@),
                    );
                }
            }
        } else {
            let ghost old_path = views(path@);
            path.push(segments[i].clone());
            proof {
                assert(views(path@) =~= old_path + seq![seg@]);
                lemma_prepend_assoc(old_path, seq![seg@], expand_segments(segs.skip(i + 1), remaining@));
            }
        }
        i = i + 1;
    }
    proof {
        assert(segs.skip(segments@.len() as int) =~= Seq::<Seq<char>>::empty());
        assert(views(path@) + Seq::<Seq<char>>::empty() =~= views(path@));
    }
    Ok((path, remaining))
}

} // verus!
