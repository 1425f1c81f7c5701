use vstd::prelude::*;
use crate::text::{chars_of, push_char};
use vstd::string::StringExecFns;

verus! {

/// What `char::to_ascii_uppercase` yields: `a` to `z` become `A` to `Z`; every other character
/// is unchanged.
pub open spec fn ascii_upper(c: char) -> char {
    if 'a' <= c && c <= 'z' {
        ((c as int) - 32) as char
    } else {
        c
    }
}

/// What `char::to_ascii_lowercase` yields: `A` to `Z` become `a` to `z`; every other character
/// is unchanged.
pub open spec fn ascii_lower(c: char) -> char {
    if 'A' <= c && c <= 'Z' {
        ((c as int) + 32) as char
    } else {
        c
    }
}

/// Calls `char::to_ascii_uppercase`, which std documents as mapping `a` to `z` onto `A` to `Z`
/// and leaving every other character unchanged.
#[verifier::external_body]
fn to_ascii_uppercase(c: char) -> (res: char)
    ensures
        res == ascii_upper(c),
{
    c.to_ascii_uppercase()
}

/// Calls `char::to_ascii_lowercase`, which std documents as mapping `A` to `Z` onto `a` to `z`
/// and leaving every other character unchanged.
#[verifier::external_body]
fn to_ascii_lowercase(c: char) -> (res: char)
    ensures
        res == ascii_lower(c),
{
    c.to_ascii_lowercase()
}

/// Whether a character has the Unicode `Uppercase` property.
pub uninterp spec fn unicode_uppercase(c: char) -> bool;

/// Whether a character is upper case: among ASCII characters exactly `A` to `Z`, elsewhere as
/// the Unicode tables say.
pub open spec fn char_is_uppercase(c: char) -> bool {
    if (c as u32) < 128 {
        'A' <= c && c <= 'Z'
    } else {
        unicode_uppercase(c)
    }
}

/// Calls `char::is_uppercase`, which std documents as testing the Unicode `Uppercase` property.
/// Among ASCII characters exactly `A` to `Z` have it; what it is for other characters is given
/// by the Unicode tables and is only named here.
#[verifier::external_body]
fn is_uppercase(c: char) -> (res: bool)
    ensures
        res == unicode_uppercase(c),
        res == char_is_uppercase(c),
{
    c.is_uppercase()
}

/// The character at position `i` of a snake-case name in camel case: upper case right after an
/// underscore, unchanged elsewhere.
pub open spec fn camel_char(s: Seq<char>, i: int) -> char {
    if i > 0 && s[i - 1] == '_' {
        ascii_upper(s[i])
    } else {
        s[i]
    }
}

/// A snake-case name in camel case: the underscores are dropped and the character after each is
/// upper-cased.
pub open spec fn spec_snake_to_camel(s: Seq<char>) -> Seq<char>
    decreases s.len(),
{
    if s.len() == 0 {
        Seq::empty()
    } else if s.last() == '_' {
        spec_snake_to_camel(s.drop_last())
    } else {
        spec_snake_to_camel(s.drop_last()).push(camel_char(s, s.len() - 1))
    }
}

/// Converts a snake-case name such as `fizz_buzz` to camel case (`fizzBuzz`).
pub fn snake_to_camel(name: &str) -> (res: String)
    ensures
        res@ == spec_snake_to_camel(name@),
{
    let chars = chars_of(name);
    let mut out = String::new();
    let mut caps = false;
    let mut i: usize = 0;
    while i < chars.len()
        invariant
            chars@ == name@,
            i <= chars@.len(),
            out@ == spec_snake_to_camel(name@.take(i as int)),
            caps == (i > 0 && name@[i - 1] == '_'),
        decreases chars@.len() - i,
    {
        let ch = chars[i];
        assert(name@.take(i + 1).drop_last() =~= name@.take(i as int));
        if ch == '_' {
            caps = true;
        } else {
            let ch = if caps {
                caps = false;
                to_ascii_uppercase(ch)
            } else {
                ch
            };
            push_char(&mut out, ch);
        }
        i = i + 1;
    }
    assert(name@.take(chars@.len() as int) =~= name@);
    out
}

/// The characters a Pascal-case name's character at position `i` becomes in screaming snake
/// case: itself upper-cased, after an underscore where it is an upper-case letter other than the
/// first character.
pub open spec fn screaming_chars(s: Seq<char>, i: int) -> Seq<char> {
    if i > 0 && char_is_uppercase(s[i]) {
        seq!['_', ascii_upper(s[i])]
    } else {
        seq![ascii_upper(s[i])]
    }
}

/// A Pascal-case name in screaming snake case.
pub open spec fn spec_pascal_to_screaming(s: Seq<char>) -> Seq<char>
    decreases s.len(),
{
    if s.len() == 0 {
        Seq::empty()
    } else {
        spec_pascal_to_screaming(s.drop_last()) + screaming_chars(s, s.len() - 1)
    }
}

/// Converts a Pascal-case name such as `FizzBuzz` to screaming snake case (`FIZZ_BUZZ`).
pub fn pascal_to_screaming(name: &str) -> (res: String)
    ensures
        res@ == spec_pascal_to_screaming(name@),
{
    let chars = chars_of(name);
    let mut out = String::new();
    let mut first = true;
    let mut i: usize = 0;
    while i < chars.len()
        invariant
            chars@ == name@,
            i <= chars@.len(),
            out@ == spec_pascal_to_screaming(name@.take(i as int)),
            first == (i == 0),
        decreases chars@.len() - i,
    {
        let ch = chars[i];
        let ghost before = out@;
        assert(name@.take(i + 1).drop_last() =~= name@.take(i as int));
        if !first && is_uppercase(ch) {
            push_char(&mut out, '_');
        }
        push_char(&mut out, to_ascii_uppercase(ch));
        assert(out@ =~= before + screaming_chars(name@.take(i + 1), i as int));
        first = false;
        i = i + 1;
    }
    assert(name@.take(chars@.len() as int) =~= name@);
    out
}

/// A Pascal-case name in camel case: the first character lower-cased, the rest unchanged.
pub open spec fn spec_pascal_to_camel(s: Seq<char>) -> Seq<char> {
    if s.len() == 0 {
        s
    } else {
        s.update(0, ascii_lower(s[0]))
    }
}

/// Converts a Pascal-case name such as `FizzBuzz` to camel case (`fizzBuzz`).
pub fn pascal_to_camel(name: &str) -> (res: String)
    ensures
        res@ == spec_pascal_to_camel(name@),
{
    let chars = chars_of(name);
    let mut out = String::new();
    let mut i: usize = 0;
    while i < chars.len()
        invariant
            chars@ == name@,
            i <= chars@.len(),
            out@ == spec_pascal_to_camel(name@).take(i as int),
        decreases chars@.len() - i,
    {
        let ch = if i == 0 {
            to_ascii_lowercase(chars[i])
        } else {
            chars[i]
        };
        push_char(&mut out, ch);
        assert(spec_pascal_to_camel(name@).take(i + 1) =~= spec_pascal_to_camel(name@).take(
            i as int,
        ).push(ch));
        i = i + 1;
    }
    assert(spec_pascal_to_camel(name@).take(chars@.len() as int) =~= spec_pascal_to_camel(name@));
    out
}

/// Names separated by `, `.
pub open spec fn joined(names: Seq<Seq<char>>) -> Seq<char>
    decreases names.len(),
{
    if names.len() == 0 {
        Seq::empty()
    } else if names.len() == 1 {
        names[0]
    } else {
        joined(names.drop_last()) + ", "@ + names.last()
    }
}

/// The message for a variant name that an enum does not have.
pub open spec fn unknown_variant_text(field: Seq<char>, expected: Seq<Seq<char>>) -> Seq<char> {
    if expected.len() == 0 {
        "unknown variant `"@ + field + "`, there are no variants"@
    } else {
        "unknown variant `"@ + field + "`, expected one of: "@ + joined(expected)
    }
}

/// Describes a variant name `field` that is none of the `expected` ones, for a deserialization
/// error.
pub fn unknown_variant(field: &str, expected: &[&str]) -> (res: String)
    ensures
        res@ == unknown_variant_text(field@, expected@.map_values(|s: &str| s@)),
{
    let ghost names = expected@.map_values(|s: &str| s@);
    let mut out = String::from_str("unknown variant `");
    out.append(field);
    if expected.len() == 0 {
        out.append("`, there are no variants");
        return out;
    }
    out.append("`, expected one of: ");
    let ghost head = out@;
    let mut i: usize = 0;
    while i < expected.len()
        invariant
            names == expected@.map_values(|s: &str| s@),
            i <= expected@.len(),
            out@ == head + joined(names.take(i as int)),
        decreases expected@.len() - i,
    {
        if i > 0 {
            out.append(", ");
        }
        out.append(expected[i]);
        assert(names.take(i + 1).drop_last() =~= names.take(i as int));
        assert(names.take(i + 1).last() == expected@[i as int]@);
        i = i + 1;
    }
    assert(names.take(expected@.len() as int) =~= names);
    out
}

/// Lower-casing turns `A` to `Z` into `a` to `z` and back again under upper-casing; it leaves
/// every other character as it is, and upper-casing likewise turns `a` to `z` into `A` to `Z`.
pub proof fn lemma_ascii_case(c: char)
    ensures
        'A' <= c <= 'Z' ==> 'a' <= ascii_lower(c) <= 'z' && ascii_upper(ascii_lower(c)) == c,
        !('A' <= c <= 'Z') ==> ascii_lower(c) == c,
        'a' <= c <= 'z' ==> 'A' <= ascii_upper(c) <= 'Z' && ascii_lower(ascii_upper(c)) == c,
        !('a' <= c <= 'z') ==> ascii_upper(c) == c,
        !('a' <= ascii_upper(c) <= 'z'),
        !('A' <= ascii_lower(c) <= 'Z'),
{
}

/// A snake-case name in camel case holds no underscore, and a name without underscores is
/// already in camel case.
pub proof fn lemma_snake_to_camel(s: Seq<char>)
    ensures
        forall|i: int| 0 <= i < spec_snake_to_camel(s).len() ==> #[trigger] spec_snake_to_camel(s)[i] != '_',
        (forall|i: int| 0 <= i < s.len() ==> #[trigger] s[i] != '_') ==> spec_snake_to_camel(s) == s,
        spec_snake_to_camel(s).len() <= s.len(),
    decreases s.len(),
{
    if s.len() > 0 {
        let d = s.drop_last();
        lemma_snake_to_camel(d);
        let c = s.last();
        lemma_ascii_case(c);
        let r = spec_snake_to_camel(s);
        let rd = spec_snake_to_camel(d);
        if c != '_' {
            let x = camel_char(s, s.len() - 1);
            lemma_ascii_case(s[s.len() - 1]);
            assert(x != '_');
            assert(r == rd.push(x));
            assert forall|i: int| 0 <= i < r.len() implies #[trigger] r[i] != '_' by {
                if i < rd.len() {
                    assert(r[i] == rd[i]);
                }
            }
            if forall|i: int| 0 <= i < s.len() ==> #[trigger] s[i] != '_' {
                assert forall|i: int| 0 <= i < d.len() implies #[trigger] d[i] != '_' by {
                    assert(s[i] != '_');
                }
                if s.len() > 1 {
                    assert(s[s.len() - 2] != '_');
                }
                assert(x == c);
                assert(r =~= s);
            }
        } else {
            assert(s[s.len() - 1] == '_');
        }
    }
}

/// A Pascal-case name in camel case is as long as the name, starts with the name's first
/// character lower-cased, and is otherwise the name.
pub proof fn lemma_pascal_to_camel(s: Seq<char>)
    ensures
        spec_pascal_to_camel(s).len() == s.len(),
        s.len() > 0 ==> spec_pascal_to_camel(s)[0] == ascii_lower(s[0]),
        forall|i: int| 0 < i < s.len() ==> #[trigger] spec_pascal_to_camel(s)[i] == s[i],
{
}

/// A Pascal-case name in screaming snake case holds no lower-case ASCII letter, and a name with
/// no upper-case letter is simply upper-cased, character by character, with no underscore added.
pub proof fn lemma_pascal_to_screaming(s: Seq<char>)
    ensures
        forall|i: int| 0 <= i < spec_pascal_to_screaming(s).len() ==> !('a' <= #[trigger] spec_pascal_to_screaming(s)[i] <= 'z'),
        spec_pascal_to_screaming(s).len() >= s.len(),
        (forall|i: int| 0 <= i < s.len() ==> !char_is_uppercase(#[trigger] s[i])) ==> (spec_pascal_to_screaming(s).len()
            == s.len() && forall|i: int| 0 <= i < s.len() ==> #[trigger] spec_pascal_to_screaming(s)[i] == ascii_upper(s[i])),
    decreases s.len(),
{
    if s.len() > 0 {
        let d = s.drop_last();
        lemma_pascal_to_screaming(d);
        let r = spec_pascal_to_screaming(s);
        let rd = spec_pascal_to_screaming(d);
        let c = s[s.len() - 1];
        lemma_ascii_case(c);
        let tail = screaming_chars(s, s.len() - 1);
        assert(r == rd + tail);
        assert forall|i: int| 0 <= i < r.len() implies !('a' <= #[trigger] r[i] <= 'z') by {
            if i < rd.len() {
                assert(r[i] == rd[i]);
            } else {
                assert(r[i] == tail[i - rd.len()]);
            }
        }
        if forall|i: int| 0 <= i < s.len() ==> !char_is_uppercase(#[trigger] s[i]) {
            assert forall|i: int| 0 <= i < d.len() implies !char_is_uppercase(#[trigger] d[i]) by {
                assert(!char_is_uppercase(s[i]));
            }
            assert(!char_is_uppercase(c));
            assert(tail == seq![ascii_upper(c)]);
            assert forall|i: int| 0 <= i < s.len() implies #[trigger] r[i] == ascii_upper(s[i]) by {
                if i < d.len() {
                    assert(r[i] == rd[i]);
                    assert(rd[i] == ascii_upper(d[i]));
                }
            }
        }
    }
}

/// Converting a name extended by an underscore and a character extends its conversion by that
/// character upper-cased; a character after anything else is kept as it is.
pub proof fn lemma_snake_to_camel_step(a: Seq<char>, c: char)
    ensures
        c != '_' ==> spec_snake_to_camel(a + seq!['_', c]) == spec_snake_to_camel(a).push(ascii_upper(c)),
        c != '_' && (a.len() == 0 || a.last() != '_') ==> spec_snake_to_camel(a.push(c))
            == spec_snake_to_camel(a).push(c),
{
    let u = a + seq!['_', c];
    assert(u.drop_last() =~= a.push('_'));
    assert(a.push('_').drop_last() =~= a);
    assert(u.last() == c);
    assert(u[u.len() - 2] == '_');
    let w = a.push('_');
    assert(w.last() == '_');
    assert(spec_snake_to_camel(w) == spec_snake_to_camel(w.drop_last()));
    if c != '_' {
        assert(camel_char(u, u.len() - 1) == ascii_upper(c));
        assert(spec_snake_to_camel(u) == spec_snake_to_camel(u.drop_last()).push(camel_char(u, u.len() - 1)));
    }
    let v = a.push(c);
    assert(v.drop_last() =~= a);
    if a.len() > 0 {
        assert(v[v.len() - 2] == a.last());
    }
}

/// Converting a name extended by a character extends its conversion by that character upper-cased,
/// after an underscore where the character is upper case and the name is not empty.
pub proof fn lemma_pascal_to_screaming_step(a: Seq<char>, c: char)
    ensures
        spec_pascal_to_screaming(a.push(c)) == spec_pascal_to_screaming(a) + if a.len() > 0 && char_is_uppercase(c) {
            seq!['_', ascii_upper(c)]
        } else {
            seq![ascii_upper(c)]
        },
{
    let v = a.push(c);
    assert(v.drop_last() =~= a);
    assert(v[v.len() - 1] == c);
}

} // verus!
