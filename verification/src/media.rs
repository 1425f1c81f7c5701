use vstd::prelude::*;
use crate::text::str_eq;

verus! {

/// A parameter of a media type, such as `charset=utf-8`.
pub struct MediaParam {
    pub name: String,
    pub value: String,
}

/// A media type such as `application/json; charset=utf-8`, with its names as the parser
/// normalized them.
pub struct MediaType {
    pub type_: String,
    pub subtype: String,
    pub params: Vec<MediaParam>,
}

/// The abstract contents of a `MediaType`.
pub struct MediaTypeView {
    pub type_: Seq<char>,
    pub subtype: Seq<char>,
    pub params: Seq<(Seq<char>, Seq<char>)>,
}

impl View for MediaType {
    type V = MediaTypeView;

    open spec fn view(&self) -> MediaTypeView {
        MediaTypeView {
            type_: self.type_@,
            subtype: self.subtype@,
            params: self.params@.map_values(|p: MediaParam| (p.name@, p.value@)),
        }
    }
}

/// The wildcard name `*`.
pub open spec fn star() -> Seq<char> {
    seq!['*']
}

/// The value of the first parameter called `name`, if any.
pub open spec fn first_param(params: Seq<(Seq<char>, Seq<char>)>, name: Seq<char>) -> Option<Seq<char>>
    decreases params.len(),
{
    if params.len() == 0 {
        None
    } else if params[0].0 == name {
        Some(params[0].1)
    } else {
        first_param(params.drop_first(), name)
    }
}

/// Whether the media type `mine` is acceptable where `other` is asked for: the type and the
/// subtype each equal, or `*` in `other`, and no parameter of `other` given a different value
/// by the first parameter of that name in `mine`.
pub open spec fn media_matches(mine: MediaTypeView, other: MediaTypeView) -> bool {
    &&& (other.type_ == star() || other.type_ == mine.type_)
    &&& (other.subtype == star() || other.subtype == mine.subtype)
    &&& forall|i: int|
        0 <= i < other.params.len() ==> match #[trigger] first_param(mine.params, other.params[i].0) {
            Some(v) => v == other.params[i].1,
            None => true,
        }
}

/// Returns the value of the first parameter called `name`, if any.
fn get_param<'a>(params: &'a Vec<MediaParam>, name: &str) -> (res: Option<&'a String>)
    ensures
        opt_str_view(res) == first_param(params@.map_values(|p: MediaParam| (p.name@, p.value@)), name@),
{
    let ghost all = params@.map_values(|p: MediaParam| (p.name@, p.value@));
    assert(all.skip(0) =~= all);
    let mut i: usize = 0;
    while i < params.len()
        invariant
            i <= params@.len(),
            all == params@.map_values(|p: MediaParam| (p.name@, p.value@)),
            first_param(all, name@) == first_param(all.skip(i as int), name@),
        decreases params@.len() - i,
    {
        assert(all.skip(i as int).drop_first() =~= all.skip(i + 1));
        if str_eq(params[i].name.as_str(), name) {
            return Some(&params[i].value);
        }
        i = i + 1;
    }
    None
}

/// The view of an optional string reference.
pub open spec fn opt_str_view(o: Option<&String>) -> Option<Seq<char>> {
    match o {
        Some(s) => Some(s@),
        None => None,
    }
}

/// Decides whether `mine` is acceptable where `other` is asked for.
pub fn mime_matches(mine: &MediaType, other: &MediaType) -> (res: bool)
    ensures
        res == media_matches(mine@, other@),
{
    proof {
        reveal_strlit("*");
        assert("*"@ =~= star());
    }
    if !str_eq(other.type_.as_str(), "*") && !str_eq(other.type_.as_str(), mine.type_.as_str()) {
        return false;
    }
    if !str_eq(other.subtype.as_str(), "*") && !str_eq(other.subtype.as_str(), mine.subtype.as_str()) {
        return false;
    }
    let ghost op = other@.params;
    let mut i: usize = 0;
    while i < other.params.len()
        invariant
            i <= other.params@.len(),
            op == other@.params,
            forall|k: int|
                0 <= k < i ==> match #[trigger] first_param(mine@.params, op[k].0) {
                    Some(v) => v == op[k].1,
                    None => true,
                },
        decreases other.params@.len() - i,
    {
        let p = &other.params[i];
        match get_param(&mine.params, p.name.as_str()) {
            Some(v) => {
                if !str_eq(p.value.as_str(), v.as_str()) {
                    assert(op[i as int] == (p.name@, p.value@));
                    assert(first_param(mine@.params, op[i as int].0) == Some(v@));
                    return false;
                }
            },
            None => {},
        }
        i = i + 1;
    }
    true
}

/// A wire format that a request or response body can take.
pub trait Format {
    /// The media type of the format.
    spec fn spec_mime(&self) -> MediaTypeView;

    /// Returns the media type of the format.
    fn mime(&self) -> (res: MediaType)
        ensures
            res@ == self.spec_mime();

    /// Decides whether the format is acceptable where `other` is asked for.
    fn matches(&self, other: &MediaType) -> (res: bool)
        ensures
            res == media_matches(self.spec_mime(), other@),
    {
        let mime = self.mime();
        mime_matches(&mime, other)
    }
}

/// The body formats this library reads and writes.
#[derive(Copy, Clone)]
pub enum SerializableFormat {
    /// JSON, `application/json`.
    Json,
}

/// The media type `application/json`.
pub open spec fn json_mime() -> MediaTypeView {
    MediaTypeView { type_: "application"@, subtype: "json"@, params: Seq::empty() }
}

impl Format for SerializableFormat {
    open spec fn spec_mime(&self) -> MediaTypeView {
        match self {
            SerializableFormat::Json => json_mime(),
        }
    }

    fn mime(&self) -> (res: MediaType) {
        broadcast use vstd::string::group_string_axioms;

        match self {
            SerializableFormat::Json => {
                let res = MediaType {
                    type_: "application".to_string(),
                    subtype: "json".to_string(),
                    params: Vec::new(),
                };
                assert(res@.params =~= Seq::<(Seq<char>, Seq<char>)>::empty());
                res
            },
        }
    }
}

/// A media type a client accepts, with its quality, in thousandths.
pub struct QualityItem {
    pub item: MediaType,
    pub quality: u16,
}

/// The media types of a list of accepted items.
pub open spec fn accepted_types(accept: Seq<QualityItem>) -> Seq<MediaTypeView> {
    accept.map_values(|q: QualityItem| q.item@)
}

/// Whether some accepted media type admits the format.
pub open spec fn acceptable<T: Format>(format: T, accept: Seq<MediaTypeView>) -> bool {
    exists|j: int| 0 <= j < accept.len() && #[trigger] media_matches(format.spec_mime(), accept[j])
}

/// Chooses the first of `types` that some accepted media type admits.
///
/// Which accepted item admits a format does not change which format is chosen, so the accepted
/// items are tried in the order given.
pub fn content_type<'a, T: Format>(accept: &[QualityItem], types: &'a [T]) -> (res: Option<&'a T>)
    ensures
        match res {
            Some(t) => exists|i: int|
                0 <= i < types@.len() && types@[i] == *t && acceptable(types@[i], accepted_types(accept@))
                    && forall|k: int| 0 <= k < i ==> !acceptable(#[trigger] types@[k], accepted_types(accept@)),
            None => forall|i: int|
                0 <= i < types@.len() ==> !acceptable(#[trigger] types@[i], accepted_types(accept@)),
        },
{
    let ghost acc = accepted_types(accept@);
    let mut i: usize = 0;
    while i < types.len()
        invariant
            i <= types@.len(),
            acc == accepted_types(accept@),
            forall|k: int| 0 <= k < i ==> !acceptable(#[trigger] types@[k], acc),
        decreases types@.len() - i,
    {
        let type_ = &types[i];
        let mut j: usize = accept.len();
        while j > 0
            invariant
                j <= accept@.len(),
                i < types@.len(),
                *type_ == types@[i as int],
                acc == accepted_types(accept@),
                forall|k: int| 0 <= k < i ==> !acceptable(#[trigger] types@[k], acc),
                forall|m: int| j <= m < accept@.len() ==> !media_matches(type_.spec_mime(), #[trigger] acc[m]),
            decreases j,
        {
            j = j - 1;
            if type_.matches(&accept[j].item) {
                assert(media_matches(types@[i as int].spec_mime(), acc[j as int]));
                assert(acceptable(types@[i as int], acc));
                assert(0 <= i < types@.len() && types@[i as int] == *type_ && acceptable(
                    types@[i as int],
                    accepted_types(accept@),
                ) && forall|k: int|
                    0 <= k < i ==> !acceptable(#[trigger] types@[k], accepted_types(accept@)));
                return Some(type_);
            }
        }
        assert(!acceptable(types@[i as int], acc));
        i = i + 1;
    }
    None
}

/// No parameter name occurs twice.
pub open spec fn param_names_unique(params: Seq<(Seq<char>, Seq<char>)>) -> bool {
    forall|i: int, j: int| 0 <= i < j < params.len() ==> params[i].0 != params[j].0
}

/// With unique names, the first parameter called as the one at `i` is that one.
proof fn lemma_first_param_unique(params: Seq<(Seq<char>, Seq<char>)>, i: int)
    requires
        param_names_unique(params),
        0 <= i < params.len(),
    ensures
        first_param(params, params[i].0) == Some(params[i].1),
    decreases params.len(),
{
    if i > 0 {
        let rest = params.drop_first();
        assert(rest[i - 1] == params[i]);
        assert(param_names_unique(rest)) by {
            assert forall|a: int, b: int| 0 <= a < b < rest.len() implies rest[a].0 != rest[b].0 by {
                assert(rest[a] == params[a + 1] && rest[b] == params[b + 1]);
            }
        }
        lemma_first_param_unique(rest, i - 1);
        assert(params[0].0 != params[i].0);
    }
}

/// A media type whose parameter names do not repeat is acceptable where it is itself asked for.
pub proof fn lemma_media_matches_itself(m: MediaTypeView)
    requires
        param_names_unique(m.params),
    ensures
        media_matches(m, m),
{
    assert forall|i: int| 0 <= i < m.params.len() implies match #[trigger] first_param(
        m.params,
        m.params[i].0,
    ) {
        Some(v) => v == m.params[i].1,
        None => true,
    } by {
        lemma_first_param_unique(m.params, i);
    }
}

/// Where `*/*` without parameters is asked for, every media type is acceptable; where a type
/// or a subtype other than `*` is asked for, only media types of that type and subtype are; and
/// a media type whose parameter gives a different value from the one asked for is not.
pub proof fn lemma_media_matching(mine: MediaTypeView, other: MediaTypeView, i: int)
    ensures
        media_matches(mine, MediaTypeView { type_: star(), subtype: star(), params: Seq::empty() }),
        (other.type_ != star() && other.type_ != mine.type_) ==> !media_matches(mine, other),
        (other.subtype != star() && other.subtype != mine.subtype) ==> !media_matches(mine, other),
        (0 <= i < other.params.len() && first_param(mine.params, other.params[i].0) is Some && first_param(
            mine.params,
            other.params[i].0,
        )->Some_0 != other.params[i].1) ==> !media_matches(mine, other),
{
}

/// A media type is acceptable where its own type and subtype are asked for with a parameter it
/// does not have, and where its parameter is asked for with the value it gives.
pub proof fn lemma_media_matching_params(mine: MediaTypeView, n: Seq<char>, v: Seq<char>)
    ensures
        (forall|j: int| 0 <= j < mine.params.len() ==> #[trigger] mine.params[j].0 != n) ==> media_matches(
            mine,
            MediaTypeView { type_: mine.type_, subtype: mine.subtype, params: seq![(n, v)] },
        ),
        first_param(mine.params, n) == Some(v) ==> media_matches(
            mine,
            MediaTypeView { type_: mine.type_, subtype: mine.subtype, params: seq![(n, v)] },
        ),
{
    lemma_first_param(mine.params, n);
    let other = MediaTypeView { type_: mine.type_, subtype: mine.subtype, params: seq![(n, v)] };
    assert(other.params[0] == (n, v));
}

/// The first parameter called `name` is one called `name`, and there is none exactly when no
/// parameter is so called.
pub proof fn lemma_first_param(params: Seq<(Seq<char>, Seq<char>)>, name: Seq<char>)
    ensures
        first_param(params, name) matches Some(v) ==> exists|i: int| 0 <= i < params.len() && #[trigger] params[i] == (name, v),
        first_param(params, name) is None <==> forall|i: int| 0 <= i < params.len() ==> #[trigger] params[i].0 != name,
    decreases params.len(),
{
    if params.len() > 0 {
        let rest = params.drop_first();
        lemma_first_param(rest, name);
        if params[0].0 != name {
            if first_param(rest, name) is Some {
                let v = first_param(rest, name)->Some_0;
                let i = choose|i: int| 0 <= i < rest.len() && #[trigger] rest[i] == (name, v);
                assert(params[i + 1] == (name, v));
            }
            if forall|i: int| 0 <= i < rest.len() ==> #[trigger] rest[i].0 != name {
                assert forall|i: int| 0 <= i < params.len() implies #[trigger] params[i].0 != name by {
                    if i > 0 {
                        assert(params[i] == rest[i - 1]);
                    }
                }
            } else {
                let i = choose|i: int| 0 <= i < rest.len() && !(#[trigger] rest[i].0 != name);
                assert(params[i + 1].0 == name);
            }
        } else {
            assert(params[0] == (name, params[0].1));
        }
    }
}

} // verus!
