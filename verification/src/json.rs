//! The reference value's wire form: a JSON object
//! `{"version": ..., "name": ..., "expired": ..., "hash-value": [...]}`.
//! Writing is canonical (fixed field order, no whitespace); reading
//! accepts whitespace and any field order, rejects unknown or repeated
//! fields, and rejects a missing or malformed `expired`.

use vstd::prelude::*;
use crate::error::Error;
use crate::reference_value::{HashValuePair, ReferenceValue, ReferenceValueView};
use crate::reference_value::REFERENCE_VALUE_VERSION;
use crate::timestamp::{spec_format_timestamp, spec_parse_timestamp, Timestamp};
use crate::timestamp::parse_timestamp;

verus! {

/// Relies on `String`'s `FromIterator<char>`: collecting characters
/// yields the string of exactly those characters.
#[verifier::external_body]
pub(crate) fn chars_to_string(v: &Vec<char>) -> (r: String)
    ensures
        r@ == v@,
{
    v.iter().collect()
}

/// The characters of a string slice, in order.
pub(crate) fn str_to_chars(s: &str) -> (r: Vec<char>)
    ensures
        r@ == s@,
{
    let n = s.unicode_len();
    let mut out: Vec<char> = Vec::new();
    let mut i: usize = 0;
    while i < n
        invariant
            n == s@.len(),
            i <= n,
            out@ == s@.subrange(0, i as int),
        decreases n - i,
    {
        out.push(s.get_char(i));
        proof {
            assert(out@ =~= s@.subrange(0, i + 1 as int));
        }
        i += 1;
    }
    proof {
        assert(out@ =~= s@);
    }
    out
}

/// How one character is written inside a JSON string: quotes and
/// backslashes take a leading backslash, everything else stands as is.
pub open spec fn esc_char(c: char) -> Seq<char> {
    if c == '"' || c == '\\' {
        seq!['\\', c]
    } else {
        seq![c]
    }
}

/// The escaped body of a JSON string.
pub open spec fn escape(s: Seq<char>) -> Seq<char>
    decreases s.len(),
{
    if s.len() == 0 {
        Seq::empty()
    } else {
        esc_char(s[0]) + escape(s.drop_first())
    }
}

/// A complete JSON string token: quote, escaped body, quote.
pub open spec fn quoted(s: Seq<char>) -> Seq<char> {
    seq!['"'] + escape(s) + seq!['"']
}

/// One (algorithm, digest) pair as a JSON object.
pub open spec fn ser_pair(p: (Seq<char>, Seq<char>)) -> Seq<char> {
    seq!['{', '"', 'a', 'l', 'g', '"', ':'] + quoted(p.0) + seq![
        ',',
        '"',
        'v',
        'a',
        'l',
        'u',
        'e',
        '"',
        ':',
    ] + quoted(p.1) + seq!['}']
}

/// What follows the first element of the pair array: a comma-led pair
/// for each remaining element, then the closing bracket.
pub open spec fn ser_pairs_tail(ps: Seq<(Seq<char>, Seq<char>)>) -> Seq<char>
    decreases ps.len(),
{
    if ps.len() == 0 {
        seq![']']
    } else {
        seq![','] + ser_pair(ps[0]) + ser_pairs_tail(ps.drop_first())
    }
}

/// The pair array as a JSON array.
pub open spec fn ser_array(ps: Seq<(Seq<char>, Seq<char>)>) -> Seq<char> {
    if ps.len() == 0 {
        seq!['[', ']']
    } else {
        seq!['['] + ser_pair(ps[0]) + ser_pairs_tail(ps.drop_first())
    }
}

/// The canonical wire form of a reference value.
pub open spec fn ser_rv(v: ReferenceValueView) -> Seq<char> {
    seq!['{', '"', 'v', 'e', 'r', 's', 'i', 'o', 'n', '"', ':'] + quoted(v.version) + seq![
        ',',
        '"',
        'n',
        'a',
        'm',
        'e',
        '"',
        ':',
    ] + quoted(v.name) + seq![',', '"', 'e', 'x', 'p', 'i', 'r', 'e', 'd', '"', ':', '"']
        + spec_format_timestamp(v.expired) + seq!['"'] + seq![
        ',',
        '"',
        'h',
        'a',
        's',
        'h',
        '-',
        'v',
        'a',
        'l',
        'u',
        'e',
        '"',
        ':',
    ] + ser_array(v.hash_values) + seq!['}']
}

/// Escaping one more trailing character appends its escape.
pub(crate) proof fn lemma_escape_snoc(s: Seq<char>, c: char)
    ensures
        escape(s.push(c)) == escape(s) + esc_char(c),
    decreases s.len(),
{
    if s.len() == 0 {
        assert(s.push(c) =~= seq![c]);
        assert(s.push(c).drop_first() =~= Seq::<char>::empty());
        assert(escape(Seq::<char>::empty()) =~= Seq::<char>::empty());
        assert(escape(s.push(c)) == esc_char(c) + escape(s.push(c).drop_first()));
        assert(escape(s.push(c)) =~= escape(s) + esc_char(c));
    } else {
        assert(s.push(c).drop_first() =~= s.drop_first().push(c));
        lemma_escape_snoc(s.drop_first(), c);
        assert(escape(s.push(c)) == esc_char(s[0]) + escape(s.drop_first().push(c)));
        assert(escape(s.push(c)) =~= escape(s) + esc_char(c));
    }
}

/// Escaping changes nothing on a sequence without quotes or backslashes.
pub(crate) proof fn lemma_escape_identity(s: Seq<char>)
    requires
        forall|k: int| 0 <= k < s.len() ==> s[k] != '"' && s[k] != '\\',
    ensures
        escape(s) == s,
    decreases s.len(),
{
    if s.len() == 0 {
        assert(escape(s) =~= s);
    } else {
        lemma_escape_identity(s.drop_first());
        assert(escape(s) =~= s);
    }
}

/// Appends `"` + escaped characters + `"` to `out`.
fn push_quoted_chars(out: &mut Vec<char>, s: &str)
    ensures
        final(out)@ == old(out)@ + quoted(s@),
{
    out.push('"');
    let n = s.unicode_len();
    let mut i: usize = 0;
    while i < n
        invariant
            n == s@.len(),
            i <= n,
            out@ == old(out)@ + seq!['"'] + escape(s@.subrange(0, i as int)),
        decreases n - i,
    {
        let c = s.get_char(i);
        if c == '"' || c == '\\' {
            out.push('\\');
        }
        out.push(c);
        proof {
            assert(s@.subrange(0, i + 1 as int) =~= s@.subrange(0, i as int).push(c));
            lemma_escape_snoc(s@.subrange(0, i as int), c);
            assert(out@ =~= old(out)@ + seq!['"'] + escape(s@.subrange(0, i + 1 as int)));
        }
        i += 1;
    }
    out.push('"');
    proof {
        assert(s@.subrange(0, n as int) =~= s@);
        assert(out@ =~= old(out)@ + quoted(s@));
    }
}

/// Appends one serialized pair to `out`.
fn push_pair(out: &mut Vec<char>, p: &HashValuePair)
    ensures
        final(out)@ == old(out)@ + ser_pair(p@),
{
    out.extend_from_slice(&['{', '"', 'a', 'l', 'g', '"', ':']);
    proof {
        assert(['{', '"', 'a', 'l', 'g', '"', ':']@ =~= seq!['{', '"', 'a', 'l', 'g', '"', ':']);
    }
    push_quoted_chars(out, p.alg().as_str());
    out.extend_from_slice(&[',', '"', 'v', 'a', 'l', 'u', 'e', '"', ':']);
    proof {
        assert([',', '"', 'v', 'a', 'l', 'u', 'e', '"', ':']@ =~= seq![
            ',',
            '"',
            'v',
            'a',
            'l',
            'u',
            'e',
            '"',
            ':',
        ]);
    }
    push_quoted_chars(out, p.value().as_str());
    out.push('}');
    proof {
        assert(out@ =~= old(out)@ + ser_pair(p@));
    }
}

/// Appends the comma-led tail of the pair array, from index `k` on.
fn push_pairs_tail(out: &mut Vec<char>, ps: &Vec<HashValuePair>, k: usize)
    requires
        k <= ps@.len(),
    ensures
        final(out)@ == old(out)@ + ser_pairs_tail(
            Seq::new(ps@.len(), |i: int| ps@[i]@).skip(k as int),
        ),
    decreases ps@.len() - k,
{
    let ghost views = Seq::new(ps@.len(), |i: int| ps@[i]@);
    if k == ps.len() {
        out.push(']');
        proof {
            assert(views.skip(k as int) =~= Seq::<(Seq<char>, Seq<char>)>::empty());
            assert(out@ =~= old(out)@ + ser_pairs_tail(views.skip(k as int)));
        }
    } else {
        out.push(',');
        push_pair(out, &ps[k]);
        push_pairs_tail(out, ps, k + 1);
        proof {
            assert(views.skip(k as int).drop_first() =~= views.skip(k as int + 1));
            assert(views.skip(k as int)[0] == views[k as int]);
            assert(out@ =~= old(out)@ + ser_pairs_tail(views.skip(k as int)));
        }
    }
}

/// Appends the serialized pair array to `out`.
fn push_array(out: &mut Vec<char>, ps: &Vec<HashValuePair>)
    ensures
        final(out)@ == old(out)@ + ser_array(Seq::new(ps@.len(), |i: int| ps@[i]@)),
{
    let ghost views = Seq::new(ps@.len(), |i: int| ps@[i]@);
    out.push('[');
    if ps.len() == 0 {
        out.push(']');
        proof {
            assert(out@ =~= old(out)@ + ser_array(views));
        }
    } else {
        push_pair(out, &ps[0]);
        push_pairs_tail(out, ps, 1);
        proof {
            assert(views.skip(1) =~= views.drop_first());
            assert(out@ =~= old(out)@ + ser_array(views));
        }
    }
}

/// Serializes a reference value to its canonical wire form.
pub fn to_json(value: &ReferenceValue) -> (r: String)
    requires
        value.well_formed(),
    ensures
        r@ == ser_rv(value@),
{
    let mut out: Vec<char> = Vec::new();
    out.extend_from_slice(&['{', '"', 'v', 'e', 'r', 's', 'i', 'o', 'n', '"', ':']);
    proof {
        assert(['{', '"', 'v', 'e', 'r', 's', 'i', 'o', 'n', '"', ':']@ =~= seq![
            '{',
            '"',
            'v',
            'e',
            'r',
            's',
            'i',
            'o',
            'n',
            '"',
            ':',
        ]);
    }
    push_quoted_chars(&mut out, value.version().as_str());
    out.extend_from_slice(&[',', '"', 'n', 'a', 'm', 'e', '"', ':']);
    proof {
        assert([',', '"', 'n', 'a', 'm', 'e', '"', ':']@ =~= seq![
            ',',
            '"',
            'n',
            'a',
            'm',
            'e',
            '"',
            ':',
        ]);
    }
    push_quoted_chars(&mut out, value.name().as_str());
    out.extend_from_slice(&[',', '"', 'e', 'x', 'p', 'i', 'r', 'e', 'd', '"', ':', '"']);
    proof {
        assert([',', '"', 'e', 'x', 'p', 'i', 'r', 'e', 'd', '"', ':', '"']@ =~= seq![
            ',',
            '"',
            'e',
            'x',
            'p',
            'i',
            'r',
            'e',
            'd',
            '"',
            ':',
            '"',
        ]);
    }
    crate::timestamp::push_timestamp(&mut out, value.expired());
    out.push('"');
    out.extend_from_slice(&[',', '"', 'h', 'a', 's', 'h', '-', 'v', 'a', 'l', 'u', 'e', '"', ':']);
    proof {
        assert([',', '"', 'h', 'a', 's', 'h', '-', 'v', 'a', 'l', 'u', 'e', '"', ':']@ =~= seq![
            ',',
            '"',
            'h',
            'a',
            's',
            'h',
            '-',
            'v',
            'a',
            'l',
            'u',
            'e',
            '"',
            ':',
        ]);
    }
    let hv = value.hash_values();
    push_array(&mut out, hv);
    out.push('}');
    proof {
        assert(Seq::new(hv@.len(), |i: int| hv@[i]@) =~= value@.hash_values);
        assert(out@ =~= ser_rv(value@));
    }
    chars_to_string(&out)
}

/// JSON insignificant whitespace.
pub open spec fn is_ws(c: char) -> bool {
    c == ' ' || c == '\n' || c == '\t' || c == '\r'
}

/// The first index at or after `i` that holds no whitespace.
pub open spec fn spec_skip_ws(s: Seq<char>, i: int) -> int
    decreases s.len() - i,
{
    if 0 <= i < s.len() && is_ws(s[i]) {
        spec_skip_ws(s, i + 1)
    } else {
        i
    }
}

pub(crate) proof fn lemma_skip_ws_bounds(s: Seq<char>, i: int)
    requires
        0 <= i <= s.len(),
    ensures
        i <= spec_skip_ws(s, i) <= s.len(),
        spec_skip_ws(s, i) < s.len() ==> !is_ws(s[spec_skip_ws(s, i)]),
    decreases s.len() - i,
{
    if i < s.len() && is_ws(s[i]) {
        lemma_skip_ws_bounds(s, i + 1);
    }
}

/// The characters of a JSON string after the opening quote: text up to
/// the closing quote, a backslash taking the following character
/// literally. Yields the unescaped text and the index after the quote.
pub open spec fn spec_parse_string_body(s: Seq<char>, i: int) -> Option<(Seq<char>, int)>
    decreases s.len() - i,
{
    if !(0 <= i < s.len()) {
        None
    } else if s[i] == '"' {
        Some((Seq::empty(), i + 1))
    } else if s[i] == '\\' {
        if i + 1 < s.len() {
            match spec_parse_string_body(s, i + 2) {
                Some(tj) => Some((seq![s[i + 1]] + tj.0, tj.1)),
                None => None,
            }
        } else {
            None
        }
    } else {
        match spec_parse_string_body(s, i + 1) {
            Some(tj) => Some((seq![s[i]] + tj.0, tj.1)),
            None => None,
        }
    }
}

/// A JSON string token at `i`: opening quote, body, closing quote.
pub open spec fn spec_parse_string(s: Seq<char>, i: int) -> Option<(Seq<char>, int)> {
    if 0 <= i < s.len() && s[i] == '"' {
        spec_parse_string_body(s, i + 1)
    } else {
        None
    }
}

pub open spec fn alg_key() -> Seq<char> {
    seq!['a', 'l', 'g']
}

pub open spec fn value_key() -> Seq<char> {
    seq!['v', 'a', 'l', 'u', 'e']
}

pub open spec fn version_key() -> Seq<char> {
    seq!['v', 'e', 'r', 's', 'i', 'o', 'n']
}

pub open spec fn name_key() -> Seq<char> {
    seq!['n', 'a', 'm', 'e']
}

pub open spec fn expired_key() -> Seq<char> {
    seq!['e', 'x', 'p', 'i', 'r', 'e', 'd']
}

pub open spec fn hash_value_key() -> Seq<char> {
    seq!['h', 'a', 's', 'h', '-', 'v', 'a', 'l', 'u', 'e']
}

pub open spec fn default_version_seq() -> Seq<char> {
    seq!['0', '.', '1']
}

/// The published default version constant spells the same characters as
/// [`default_version_seq`].
pub(crate) proof fn lemma_default_version_chars()
    ensures
        REFERENCE_VALUE_VERSION@ == default_version_seq(),
{
    reveal_strlit("0.1");
    assert(REFERENCE_VALUE_VERSION@ =~= default_version_seq());
}

/// The (algorithm, digest) pair spelled by two key/value fields, the
/// keys in either order, exactly `alg` and `value`.
pub open spec fn pair_of_fields(
    key1: Seq<char>,
    val1: Seq<char>,
    key2: Seq<char>,
    val2: Seq<char>,
) -> Option<(Seq<char>, Seq<char>)> {
    if key1 == alg_key() && key2 == value_key() {
        Some((val1, val2))
    } else if key1 == value_key() && key2 == alg_key() {
        Some((val2, val1))
    } else {
        None
    }
}

/// One pair object at `i`: `{` key `:` string `,` key `:` string `}`,
/// whitespace allowed between tokens.
pub open spec fn spec_parse_pair(s: Seq<char>, i: int) -> Option<((Seq<char>, Seq<char>), int)> {
    if 0 <= i < s.len() && s[i] == '{' {
        match spec_parse_string(s, spec_skip_ws(s, i + 1)) {
            Some((key1, a)) => {
                let c1 = spec_skip_ws(s, a);
                if 0 <= c1 < s.len() && s[c1] == ':' {
                    match spec_parse_string(s, spec_skip_ws(s, c1 + 1)) {
                        Some((val1, b)) => {
                            let c2 = spec_skip_ws(s, b);
                            if 0 <= c2 < s.len() && s[c2] == ',' {
                                match spec_parse_string(s, spec_skip_ws(s, c2 + 1)) {
                                    Some((key2, c)) => {
                                        let c3 = spec_skip_ws(s, c);
                                        if 0 <= c3 < s.len() && s[c3] == ':' {
                                            match spec_parse_string(s, spec_skip_ws(s, c3 + 1)) {
                                                Some((val2, d)) => {
                                                    let c4 = spec_skip_ws(s, d);
                                                    if 0 <= c4 < s.len() && s[c4] == '}' {
                                                        match pair_of_fields(key1, val1, key2, val2) {
                                                            Some(p) => Some((p, c4 + 1)),
                                                            None => None,
                                                        }
                                                    } else {
                                                        None
                                                    }
                                                },
                                                None => None,
                                            }
                                        } else {
                                            None
                                        }
                                    },
                                    None => None,
                                }
                            } else {
                                None
                            }
                        },
                        None => None,
                    }
                } else {
                    None
                }
            },
            None => None,
        }
    } else {
        None
    }
}

/// After one array element: either the closing bracket, or a comma and
/// a further pair, repeated.
pub open spec fn spec_parse_pairs_tail(
    s: Seq<char>,
    i: int,
    acc: Seq<(Seq<char>, Seq<char>)>,
) -> Option<(Seq<(Seq<char>, Seq<char>)>, int)>
    decreases s.len() - i,
{
    let j = spec_skip_ws(s, i);
    if !(0 <= j < s.len()) {
        None
    } else if s[j] == ']' {
        Some((acc, j + 1))
    } else if s[j] == ',' {
        match spec_parse_pair(s, spec_skip_ws(s, j + 1)) {
            Some((p, k)) => {
                if i < k <= s.len() {
                    spec_parse_pairs_tail(s, k, acc.push(p))
                } else {
                    None
                }
            },
            None => None,
        }
    } else {
        None
    }
}

/// The pair array at `i`: `[`, elements separated by commas, `]`.
pub open spec fn spec_parse_array(s: Seq<char>, i: int) -> Option<(
    Seq<(Seq<char>, Seq<char>)>,
    int,
)> {
    if 0 <= i < s.len() && s[i] == '[' {
        let j = spec_skip_ws(s, i + 1);
        if 0 <= j < s.len() && s[j] == ']' {
            Some((Seq::empty(), j + 1))
        } else {
            match spec_parse_pair(s, j) {
                Some((p, k)) => {
                    if i < k <= s.len() {
                        spec_parse_pairs_tail(s, k, seq![p])
                    } else {
                        None
                    }
                },
                None => None,
            }
        }
    } else {
        None
    }
}

/// The fields read so far from the top-level object.
pub struct FieldsAcc {
    pub version: Option<Seq<char>>,
    pub name: Option<Seq<char>>,
    pub expired: Option<Timestamp>,
    pub hash_values: Option<Seq<(Seq<char>, Seq<char>)>>,
}

/// The value of one top-level field, dispatched on its key. A repeated
/// or unknown key rejects, as does a malformed `expired` string.
pub open spec fn spec_parse_field_value(s: Seq<char>, i: int, key: Seq<char>, acc: FieldsAcc)
    -> Option<(FieldsAcc, int)> {
    if key == version_key() {
        if acc.version is Some {
            None
        } else {
            match spec_parse_string(s, i) {
                Some((v, j)) => Some((FieldsAcc { version: Some(v), ..acc }, j)),
                None => None,
            }
        }
    } else if key == name_key() {
        if acc.name is Some {
            None
        } else {
            match spec_parse_string(s, i) {
                Some((v, j)) => Some((FieldsAcc { name: Some(v), ..acc }, j)),
                None => None,
            }
        }
    } else if key == expired_key() {
        if acc.expired is Some {
            None
        } else {
            match spec_parse_string(s, i) {
                Some((v, j)) => match spec_parse_timestamp(v) {
                    Some(t) => Some((FieldsAcc { expired: Some(t), ..acc }, j)),
                    None => None,
                },
                None => None,
            }
        }
    } else if key == hash_value_key() {
        if acc.hash_values is Some {
            None
        } else {
            match spec_parse_array(s, i) {
                Some((ps, j)) => Some((FieldsAcc { hash_values: Some(ps), ..acc }, j)),
                None => None,
            }
        }
    } else {
        None
    }
}

/// The top-level fields from `i` (just inside the object) to the
/// closing brace.
pub open spec fn spec_parse_fields(s: Seq<char>, i: int, acc: FieldsAcc) -> Option<(
    FieldsAcc,
    int,
)>
    decreases s.len() - i,
{
    match spec_parse_string(s, spec_skip_ws(s, i)) {
        Some((key, a)) => {
            let c = spec_skip_ws(s, a);
            if 0 <= c < s.len() && s[c] == ':' {
                match spec_parse_field_value(s, spec_skip_ws(s, c + 1), key, acc) {
                    Some((acc2, b)) => {
                        let e = spec_skip_ws(s, b);
                        if 0 <= e < s.len() && s[e] == ',' {
                            if i < e + 1 <= s.len() {
                                spec_parse_fields(s, e + 1, acc2)
                            } else {
                                None
                            }
                        } else if 0 <= e < s.len() && s[e] == '}' {
                            Some((acc2, e + 1))
                        } else {
                            None
                        }
                    },
                    None => None,
                }
            } else {
                None
            }
        },
        None => None,
    }
}

/// What reading a wire form yields: `Some` exactly on a single JSON
/// object that binds `name`, `expired` (well formed) and `hash-value`
/// once each, `version` at most once, and nothing else; `version`
/// defaults when absent.
pub open spec fn spec_parse_rv(s: Seq<char>) -> Option<ReferenceValueView> {
    let i = spec_skip_ws(s, 0);
    if 0 <= i < s.len() && s[i] == '{' {
        match spec_parse_fields(
            s,
            i + 1,
            FieldsAcc { version: None, name: None, expired: None, hash_values: None },
        ) {
            Some((acc, j)) => {
                if spec_skip_ws(s, j) == s.len() {
                    match (acc.name, acc.expired, acc.hash_values) {
                        (Some(n), Some(t), Some(h)) => Some(
                            ReferenceValueView {
                                version: match acc.version {
                                    Some(v) => v,
                                    None => default_version_seq(),
                                },
                                name: n,
                                expired: t,
                                hash_values: h,
                            },
                        ),
                        _ => None,
                    }
                } else {
                    None
                }
            },
            None => None,
        }
    } else {
        None
    }
}

/// The views of a vector of pairs, elementwise.
pub(crate) open spec fn pairs_view(ps: Seq<HashValuePair>) -> Seq<(Seq<char>, Seq<char>)> {
    Seq::new(ps.len(), |i: int| ps[i]@)
}

fn skip_ws(s: &[char], i: usize) -> (j: usize)
    requires
        i <= s@.len(),
    ensures
        j as int == spec_skip_ws(s@, i as int),
        i <= j <= s@.len(),
{
    let mut j = i;
    while j < s.len() && (s[j] == ' ' || s[j] == '\n' || s[j] == '\t' || s[j] == '\r')
        invariant
            i <= j <= s@.len(),
            spec_skip_ws(s@, i as int) == spec_skip_ws(s@, j as int),
        decreases s@.len() - j,
    {
        j += 1;
    }
    j
}

fn parse_string_body(s: &[char], i: usize) -> (r: Option<(Vec<char>, usize)>)
    requires
        i <= s@.len(),
    ensures
        r matches Some(tj) ==> spec_parse_string_body(s@, i as int) == Some((tj.0@, tj.1 as int))
            && tj.1 <= s@.len(),
        r is None ==> spec_parse_string_body(s@, i as int) is None,
    decreases s@.len() - i,
{
    if i >= s.len() {
        return None;
    }
    let c = s[i];
    if c == '"' {
        let empty: Vec<char> = Vec::new();
        proof {
            assert(empty@ =~= Seq::<char>::empty());
        }
        Some((empty, i + 1))
    } else if c == '\\' {
        if i + 1 < s.len() {
            let escaped = s[i + 1];
            match parse_string_body(s, i + 2) {
                Some((t, j)) => {
                    let ghost t0 = t@;
                    let mut t = t;
                    t.insert(0, escaped);
                    proof {
                        assert(t@ =~= seq![s@[i as int + 1]] + t0);
                    }
                    Some((t, j))
                },
                None => None,
            }
        } else {
            None
        }
    } else {
        match parse_string_body(s, i + 1) {
            Some((t, j)) => {
                let ghost t0 = t@;
                let mut t = t;
                t.insert(0, c);
                proof {
                    assert(t@ =~= seq![s@[i as int]] + t0);
                }
                Some((t, j))
            },
            None => None,
        }
    }
}

fn parse_string(s: &[char], i: usize) -> (r: Option<(Vec<char>, usize)>)
    ensures
        r matches Some(tj) ==> spec_parse_string(s@, i as int) == Some((tj.0@, tj.1 as int))
            && tj.1 <= s@.len(),
        r is None ==> spec_parse_string(s@, i as int) is None,
{
    if i < s.len() && s[i] == '"' {
        parse_string_body(s, i + 1)
    } else {
        None
    }
}

fn chars_eq(a: &Vec<char>, b: &[char]) -> (r: bool)
    ensures
        r == (a@ == b@),
{
    if a.len() != b.len() {
        proof {
            if a@ == b@ {
                assert(a@.len() == b@.len());
            }
        }
        return false;
    }
    let n = a.len();
    let mut i: usize = 0;
    while i < n
        invariant
            n == a@.len() == b@.len(),
            i <= n,
            forall|j: int| 0 <= j < i ==> a@[j] == b@[j],
        decreases n - i,
    {
        if a[i] != b[i] {
            proof {
                if a@ == b@ {
                    assert(a@[i as int] == b@[i as int]);
                }
            }
            return false;
        }
        i += 1;
    }
    proof {
        assert(a@ =~= b@);
    }
    true
}

fn parse_pair(s: &[char], i: usize) -> (r: Option<(HashValuePair, usize)>)
    requires
        i <= s@.len(),
    ensures
        r matches Some(pj) ==> spec_parse_pair(s@, i as int) == Some((pj.0@, pj.1 as int)) && pj.1
            <= s@.len(),
        r is None ==> spec_parse_pair(s@, i as int) is None,
{
    if !(i < s.len() && s[i] == '{') {
        return None;
    }
    let k1 = skip_ws(s, i + 1);
    let (key1, a) = match parse_string(s, k1) {
        Some(kj) => kj,
        None => {
            return None;
        },
    };
    let c1 = skip_ws(s, a);
    if !(c1 < s.len() && s[c1] == ':') {
        return None;
    }
    let v1s = skip_ws(s, c1 + 1);
    let (val1, b) = match parse_string(s, v1s) {
        Some(vj) => vj,
        None => {
            return None;
        },
    };
    let c2 = skip_ws(s, b);
    if !(c2 < s.len() && s[c2] == ',') {
        return None;
    }
    let k2s = skip_ws(s, c2 + 1);
    let (key2, c) = match parse_string(s, k2s) {
        Some(kj) => kj,
        None => {
            return None;
        },
    };
    let c3 = skip_ws(s, c);
    if !(c3 < s.len() && s[c3] == ':') {
        return None;
    }
    let v2s = skip_ws(s, c3 + 1);
    let (val2, d) = match parse_string(s, v2s) {
        Some(vj) => vj,
        None => {
            return None;
        },
    };
    let c4 = skip_ws(s, d);
    if !(c4 < s.len() && s[c4] == '}') {
        return None;
    }
    proof {
        assert(['a', 'l', 'g']@ =~= alg_key());
        assert(['v', 'a', 'l', 'u', 'e']@ =~= value_key());
    }
    let key1_is_alg = chars_eq(&key1, &['a', 'l', 'g']);
    let key1_is_value = chars_eq(&key1, &['v', 'a', 'l', 'u', 'e']);
    let key2_is_alg = chars_eq(&key2, &['a', 'l', 'g']);
    let key2_is_value = chars_eq(&key2, &['v', 'a', 'l', 'u', 'e']);
    if key1_is_alg && key2_is_value {
        let p = HashValuePair::new(chars_to_string(&val1), chars_to_string(&val2));
        Some((p, c4 + 1))
    } else if key1_is_value && key2_is_alg {
        let p = HashValuePair::new(chars_to_string(&val2), chars_to_string(&val1));
        Some((p, c4 + 1))
    } else {
        None
    }
}

fn parse_pairs_tail(s: &[char], i: usize, acc: Vec<HashValuePair>) -> (r: Option<(
    Vec<HashValuePair>,
    usize,
)>)
    requires
        i <= s@.len(),
    ensures
        r matches Some(pj) ==> spec_parse_pairs_tail(s@, i as int, pairs_view(acc@)) == Some(
            (pairs_view(pj.0@), pj.1 as int),
        ) && pj.1 <= s@.len(),
        r is None ==> spec_parse_pairs_tail(s@, i as int, pairs_view(acc@)) is None,
    decreases s@.len() - i,
{
    let j = skip_ws(s, i);
    if !(j < s.len()) {
        return None;
    }
    if s[j] == ']' {
        return Some((acc, j + 1));
    }
    if s[j] != ',' {
        return None;
    }
    let ps = skip_ws(s, j + 1);
    match parse_pair(s, ps) {
        Some((p, k)) => {
            if i < k && k <= s.len() {
                let ghost acc0 = acc@;
                let ghost pv = p@;
                let mut acc = acc;
                acc.push(p);
                proof {
                    assert(pairs_view(acc@) =~= pairs_view(acc0).push(pv));
                }
                parse_pairs_tail(s, k, acc)
            } else {
                None
            }
        },
        None => None,
    }
}

fn parse_array(s: &[char], i: usize) -> (r: Option<(Vec<HashValuePair>, usize)>)
    requires
        i <= s@.len(),
    ensures
        r matches Some(pj) ==> spec_parse_array(s@, i as int) == Some(
            (pairs_view(pj.0@), pj.1 as int),
        ) && pj.1 <= s@.len(),
        r is None ==> spec_parse_array(s@, i as int) is None,
{
    if !(i < s.len() && s[i] == '[') {
        return None;
    }
    let j = skip_ws(s, i + 1);
    if j < s.len() && s[j] == ']' {
        let empty: Vec<HashValuePair> = Vec::new();
        proof {
            assert(pairs_view(empty@) =~= Seq::<(Seq<char>, Seq<char>)>::empty());
        }
        return Some((empty, j + 1));
    }
    match parse_pair(s, j) {
        Some((p, k)) => {
            if i < k && k <= s.len() {
                let ghost pv = p@;
                let mut acc: Vec<HashValuePair> = Vec::new();
                acc.push(p);
                proof {
                    assert(pairs_view(acc@) =~= seq![pv]);
                }
                parse_pairs_tail(s, k, acc)
            } else {
                None
            }
        },
        None => None,
    }
}

/// The fields read so far, as executable state.
struct FieldsBuf {
    version: Option<String>,
    name: Option<String>,
    expired: Option<Timestamp>,
    hash_values: Option<Vec<HashValuePair>>,
}

impl View for FieldsBuf {
    type V = FieldsAcc;

    closed spec fn view(&self) -> FieldsAcc {
        FieldsAcc {
            version: match self.version {
                Some(v) => Some(v@),
                None => None,
            },
            name: match self.name {
                Some(v) => Some(v@),
                None => None,
            },
            expired: self.expired,
            hash_values: match self.hash_values {
                Some(ps) => Some(pairs_view(ps@)),
                None => None,
            },
        }
    }
}

fn parse_field_value(s: &[char], i: usize, key: &Vec<char>, acc: FieldsBuf) -> (r: Option<(
    FieldsBuf,
    usize,
)>)
    requires
        i <= s@.len(),
    ensures
        r matches Some(aj) ==> spec_parse_field_value(s@, i as int, key@, acc@) == Some(
            (aj.0@, aj.1 as int),
        ) && aj.1 <= s@.len(),
        r is None ==> spec_parse_field_value(s@, i as int, key@, acc@) is None,
{
    proof {
        assert(['v', 'e', 'r', 's', 'i', 'o', 'n']@ =~= version_key());
        assert(['n', 'a', 'm', 'e']@ =~= name_key());
        assert(['e', 'x', 'p', 'i', 'r', 'e', 'd']@ =~= expired_key());
        assert(['h', 'a', 's', 'h', '-', 'v', 'a', 'l', 'u', 'e']@ =~= hash_value_key());
    }
    if chars_eq(key, &['v', 'e', 'r', 's', 'i', 'o', 'n']) {
        if acc.version.is_some() {
            return None;
        }
        match parse_string(s, i) {
            Some((v, j)) => Some((FieldsBuf { version: Some(chars_to_string(&v)), ..acc }, j)),
            None => None,
        }
    } else if chars_eq(key, &['n', 'a', 'm', 'e']) {
        if acc.name.is_some() {
            return None;
        }
        match parse_string(s, i) {
            Some((v, j)) => Some((FieldsBuf { name: Some(chars_to_string(&v)), ..acc }, j)),
            None => None,
        }
    } else if chars_eq(key, &['e', 'x', 'p', 'i', 'r', 'e', 'd']) {
        if acc.expired.is_some() {
            return None;
        }
        match parse_string(s, i) {
            Some((v, j)) => match parse_timestamp(v.as_slice()) {
                Some(t) => Some((FieldsBuf { expired: Some(t), ..acc }, j)),
                None => None,
            },
            None => None,
        }
    } else if chars_eq(key, &['h', 'a', 's', 'h', '-', 'v', 'a', 'l', 'u', 'e']) {
        if acc.hash_values.is_some() {
            return None;
        }
        match parse_array(s, i) {
            Some((ps, j)) => Some((FieldsBuf { hash_values: Some(ps), ..acc }, j)),
            None => None,
        }
    } else {
        None
    }
}

fn parse_fields(s: &[char], i: usize, acc: FieldsBuf) -> (r: Option<(FieldsBuf, usize)>)
    requires
        i <= s@.len(),
    ensures
        r matches Some(aj) ==> spec_parse_fields(s@, i as int, acc@) == Some((aj.0@, aj.1 as int))
            && aj.1 <= s@.len(),
        r is None ==> spec_parse_fields(s@, i as int, acc@) is None,
    decreases s@.len() - i,
{
    let j = skip_ws(s, i);
    let (key, a) = match parse_string(s, j) {
        Some(kj) => kj,
        None => {
            return None;
        },
    };
    let c = skip_ws(s, a);
    if !(c < s.len() && s[c] == ':') {
        return None;
    }
    let vs = skip_ws(s, c + 1);
    match parse_field_value(s, vs, &key, acc) {
        Some((acc2, b)) => {
            let e = skip_ws(s, b);
            if e < s.len() && s[e] == ',' {
                if i < e + 1 && e + 1 <= s.len() {
                    parse_fields(s, e + 1, acc2)
                } else {
                    None
                }
            } else if e < s.len() && s[e] == '}' {
                Some((acc2, e + 1))
            } else {
                None
            }
        },
        None => None,
    }
}

/// Reads a reference value from its wire form. Fails with
/// [`Error::SerializationFailed`] exactly when the text is not a JSON
/// object of the published shape, among that when `expired` is missing
/// or malformed.
pub fn from_json(s: &str) -> (r: Result<ReferenceValue, Error>)
    ensures
        spec_parse_rv(s@) matches Some(v) ==> r matches Ok(rv) && rv@ == v,
        spec_parse_rv(s@) is None ==> r == Err::<ReferenceValue, Error>(Error::SerializationFailed),
{
    let chars = str_to_chars(s);
    let cs = chars.as_slice();
    let i = skip_ws(cs, 0);
    if !(i < cs.len() && cs[i] == '{') {
        return Err(Error::SerializationFailed);
    }
    let start = FieldsBuf { version: None, name: None, expired: None, hash_values: None };
    let (buf, j) = match parse_fields(cs, i + 1, start) {
        Some(aj) => aj,
        None => {
            return Err(Error::SerializationFailed);
        },
    };
    if skip_ws(cs, j) != cs.len() {
        return Err(Error::SerializationFailed);
    }
    let name = match buf.name {
        Some(n) => n,
        None => {
            return Err(Error::SerializationFailed);
        },
    };
    let expired = match buf.expired {
        Some(t) => t,
        None => {
            return Err(Error::SerializationFailed);
        },
    };
    let pairs = match buf.hash_values {
        Some(ps) => ps,
        None => {
            return Err(Error::SerializationFailed);
        },
    };
    let ghost parsed = spec_parse_rv(s@)->Some_0;
    let mut rv = ReferenceValue::new();
    rv = match buf.version {
        Some(v) => rv.set_version(v.as_str()),
        None => {
            proof {
                lemma_default_version_chars();
            }
            rv
        },
    };
    rv = rv.set_name(name.as_str());
    rv = rv.set_expired(expired);
    let n = pairs.len();
    let mut idx: usize = 0;
    while idx < n
        invariant
            n == pairs@.len(),
            idx <= n,
            rv@.version == parsed.version,
            rv@.name == parsed.name,
            rv@.expired == parsed.expired,
            rv@.hash_values =~= pairs_view(pairs@).take(idx as int),
            pairs_view(pairs@) == parsed.hash_values,
        decreases n - idx,
    {
        let alg = pairs[idx].alg().clone();
        let value = pairs[idx].value().clone();
        rv = rv.add_hash_value(alg, value);
        proof {
            assert(pairs_view(pairs@).take(idx as int + 1) =~= pairs_view(pairs@).take(
                idx as int,
            ).push(pairs@[idx as int]@));
        }
        idx += 1;
    }
    proof {
        assert(pairs_view(pairs@).take(n as int) =~= pairs_view(pairs@));
        assert(rv@ =~= parsed);
    }
    Ok(rv)
}

/// Splitting a known suffix: the characters of `x` stand at `i`, and the
/// suffix after them is `y`.
proof fn lemma_skip_concat(s: Seq<char>, i: int, x: Seq<char>, y: Seq<char>)
    requires
        0 <= i <= s.len(),
        s.skip(i) == x + y,
    ensures
        i + x.len() <= s.len(),
        s.skip(i + x.len()) == y,
        forall|k: int| 0 <= k < x.len() ==> s[i + k] == x[k],
{
    assert(s.skip(i).len() == s.len() - i);
    assert forall|k: int| 0 <= k < x.len() implies s[i + k] == x[k] by {
        assert(s.skip(i)[k] == s[i + k]);
        assert((x + y)[k] == x[k]);
    }
    assert forall|m: int| 0 <= m < s.len() - i - x.len() implies s.skip(i + x.len())[m] == y[m] by {
        assert(s.skip(i)[x.len() + m] == s[i + x.len() + m]);
        assert((x + y)[x.len() + m] == y[m]);
    }
    assert(s.skip(i + x.len()) =~= y);
}

proof fn lemma_skip_ws_at(s: Seq<char>, i: int)
    requires
        !(0 <= i < s.len() && is_ws(s[i])),
    ensures
        spec_skip_ws(s, i) == i,
{
}

/// Reading a string body over escaped text: the escaped characters of
/// `c` followed by a closing quote parse back to `c`.
proof fn lemma_parse_body_of_escaped(s: Seq<char>, i: int, c: Seq<char>, rest: Seq<char>)
    requires
        0 <= i <= s.len(),
        s.skip(i) == escape(c) + seq!['"'] + rest,
    ensures
        spec_parse_string_body(s, i) == Some((c, i + escape(c).len() + 1)),
    decreases c.len(),
{
    if c.len() == 0 {
        assert(escape(c) =~= Seq::<char>::empty());
        lemma_skip_concat(s, i, seq!['"'], rest);
        assert(s.skip(i)[0] == (seq!['"'] + rest)[0]);
        assert(s[i] == '"');
        assert(spec_parse_string_body(s, i) == Some((Seq::<char>::empty(), i + 1)));
        assert(c =~= Seq::<char>::empty());
    } else {
        let c0 = c[0];
        let ctail = c.drop_first();
        assert(escape(c) == esc_char(c0) + escape(ctail));
        if c0 == '"' || c0 == '\\' {
            assert(s.skip(i) =~= seq!['\\', c0] + (escape(ctail) + seq!['"'] + rest));
            lemma_skip_concat(s, i, seq!['\\', c0], escape(ctail) + seq!['"'] + rest);
            assert(s.skip(i)[0] == (seq!['\\', c0] + (escape(ctail) + seq!['"'] + rest))[0]);
            assert(s.skip(i)[1] == (seq!['\\', c0] + (escape(ctail) + seq!['"'] + rest))[1]);
            assert(s[i] == '\\');
            assert(s[i + 1] == c0);
            lemma_parse_body_of_escaped(s, i + 2, ctail, rest);
            assert(spec_parse_string_body(s, i + 2) == Some(
                (ctail, i + 2 + escape(ctail).len() + 1),
            ));
            assert(seq![s[i + 1]] + ctail =~= c);
            assert(spec_parse_string_body(s, i) == Some((c, i + escape(c).len() + 1)));
        } else {
            assert(s.skip(i) =~= seq![c0] + (escape(ctail) + seq!['"'] + rest));
            lemma_skip_concat(s, i, seq![c0], escape(ctail) + seq!['"'] + rest);
            assert(s.skip(i)[0] == (seq![c0] + (escape(ctail) + seq!['"'] + rest))[0]);
            assert(s[i] == c0);
            lemma_parse_body_of_escaped(s, i + 1, ctail, rest);
            assert(seq![s[i]] + ctail =~= c);
            assert(spec_parse_string_body(s, i) == Some((c, i + escape(c).len() + 1)));
        }
    }
}

/// Reading a whole string token over `quoted(c)` yields `c`.
proof fn lemma_parse_string_of_quoted(s: Seq<char>, i: int, c: Seq<char>, rest: Seq<char>)
    requires
        0 <= i <= s.len(),
        s.skip(i) == quoted(c) + rest,
    ensures
        spec_parse_string(s, i) == Some((c, i + quoted(c).len())),
        i + quoted(c).len() <= s.len(),
{
    assert(s.skip(i) =~= seq!['"'] + (escape(c) + seq!['"'] + rest));
    lemma_skip_concat(s, i, seq!['"'], escape(c) + seq!['"'] + rest);
    assert(s.skip(i)[0] == (seq!['"'] + (escape(c) + seq!['"'] + rest))[0]);
    assert(s[i] == '"');
    lemma_parse_body_of_escaped(s, i + 1, c, rest);
    lemma_skip_concat(s, i, quoted(c), rest);
}

/// None of the wire form's fixed key names needs escaping.
proof fn lemma_keys_plain()
    ensures
        escape(alg_key()) == alg_key(),
        escape(value_key()) == value_key(),
        escape(version_key()) == version_key(),
        escape(name_key()) == name_key(),
        escape(expired_key()) == expired_key(),
        escape(hash_value_key()) == hash_value_key(),
{
    assert forall|k: int| 0 <= k < alg_key().len() implies alg_key()[k] != '"' && alg_key()[k]
        != '\\' by {
        if k == 0 {
            assert(alg_key()[0] == 'a');
        } else if k == 1 {
            assert(alg_key()[1] == 'l');
        } else {
            assert(alg_key()[2] == 'g');
        }
    }
    lemma_escape_identity(alg_key());
    assert forall|k: int| 0 <= k < value_key().len() implies value_key()[k] != '"' && value_key()[k]
        != '\\' by {
        if k == 0 {
            assert(value_key()[0] == 'v');
        } else if k == 1 {
            assert(value_key()[1] == 'a');
        } else if k == 2 {
            assert(value_key()[2] == 'l');
        } else if k == 3 {
            assert(value_key()[3] == 'u');
        } else {
            assert(value_key()[4] == 'e');
        }
    }
    lemma_escape_identity(value_key());
    assert forall|k: int| 0 <= k < version_key().len() implies version_key()[k] != '"'
        && version_key()[k] != '\\' by {
        if k == 0 {
            assert(version_key()[0] == 'v');
        } else if k == 1 {
            assert(version_key()[1] == 'e');
        } else if k == 2 {
            assert(version_key()[2] == 'r');
        } else if k == 3 {
            assert(version_key()[3] == 's');
        } else if k == 4 {
            assert(version_key()[4] == 'i');
        } else if k == 5 {
            assert(version_key()[5] == 'o');
        } else {
            assert(version_key()[6] == 'n');
        }
    }
    lemma_escape_identity(version_key());
    assert forall|k: int| 0 <= k < name_key().len() implies name_key()[k] != '"' && name_key()[k]
        != '\\' by {
        if k == 0 {
            assert(name_key()[0] == 'n');
        } else if k == 1 {
            assert(name_key()[1] == 'a');
        } else if k == 2 {
            assert(name_key()[2] == 'm');
        } else {
            assert(name_key()[3] == 'e');
        }
    }
    lemma_escape_identity(name_key());
    assert forall|k: int| 0 <= k < expired_key().len() implies expired_key()[k] != '"'
        && expired_key()[k] != '\\' by {
        if k == 0 {
            assert(expired_key()[0] == 'e');
        } else if k == 1 {
            assert(expired_key()[1] == 'x');
        } else if k == 2 {
            assert(expired_key()[2] == 'p');
        } else if k == 3 {
            assert(expired_key()[3] == 'i');
        } else if k == 4 {
            assert(expired_key()[4] == 'r');
        } else if k == 5 {
            assert(expired_key()[5] == 'e');
        } else {
            assert(expired_key()[6] == 'd');
        }
    }
    lemma_escape_identity(expired_key());
    assert forall|k: int| 0 <= k < hash_value_key().len() implies hash_value_key()[k] != '"'
        && hash_value_key()[k] != '\\' by {
        if k == 0 {
            assert(hash_value_key()[0] == 'h');
        } else if k == 1 {
            assert(hash_value_key()[1] == 'a');
        } else if k == 2 {
            assert(hash_value_key()[2] == 's');
        } else if k == 3 {
            assert(hash_value_key()[3] == 'h');
        } else if k == 4 {
            assert(hash_value_key()[4] == '-');
        } else if k == 5 {
            assert(hash_value_key()[5] == 'v');
        } else if k == 6 {
            assert(hash_value_key()[6] == 'a');
        } else if k == 7 {
            assert(hash_value_key()[7] == 'l');
        } else if k == 8 {
            assert(hash_value_key()[8] == 'u');
        } else {
            assert(hash_value_key()[9] == 'e');
        }
    }
    lemma_escape_identity(hash_value_key());
}

/// The rendering of a well-formed timestamp needs no escaping.
proof fn lemma_format_timestamp_plain(t: Timestamp)
    requires
        t.well_formed(),
    ensures
        escape(spec_format_timestamp(t)) == spec_format_timestamp(t),
        spec_parse_timestamp(spec_format_timestamp(t)) == Some(t),
{
    crate::timestamp::lemma_timestamp_roundtrip(t);
    let f = spec_format_timestamp(t);
    assert forall|k: int| 0 <= k < f.len() implies f[k] != '"' && f[k] != '\\' by {
        if k == 4 || k == 7 {
            assert(f[k] == '-');
        } else if k == 10 {
            assert(f[k] == 'T');
        } else if k == 13 || k == 16 {
            assert(f[k] == ':');
        } else if k == 19 {
            assert(f[k] == 'Z');
        } else {
            assert(crate::timestamp::is_digit(f[k]));
        }
    }
    lemma_escape_identity(f);
}

/// Reading back one serialized pair object.
proof fn lemma_parse_pair_of_ser(s: Seq<char>, i: int, p: (Seq<char>, Seq<char>), rest: Seq<char>)
    requires
        0 <= i <= s.len(),
        s.skip(i) == ser_pair(p) + rest,
    ensures
        spec_parse_pair(s, i) == Some((p, i + ser_pair(p).len())),
        i + ser_pair(p).len() <= s.len(),
{
    lemma_keys_plain();
    let q_alg = quoted(alg_key());
    let q_value = quoted(value_key());
    let q0 = quoted(p.0);
    let q1 = quoted(p.1);
    let r1 = q_alg + seq![':'] + q0 + seq![','] + q_value + seq![':'] + q1 + seq!['}'] + rest;
    assert(s.skip(i) =~= seq!['{'] + r1);
    lemma_skip_concat(s, i, seq!['{'], r1);
    assert(s.skip(i)[0] == (seq!['{'] + r1)[0]);
    assert(s[i] == '{');
    let i1 = i + 1;
    let r2 = seq![':'] + q0 + seq![','] + q_value + seq![':'] + q1 + seq!['}'] + rest;
    assert(s.skip(i1) =~= q_alg + r2);
    assert(s.skip(i1)[0] == (q_alg + r2)[0]);
    assert(s[i1] == '"');
    lemma_skip_ws_at(s, i1);
    lemma_parse_string_of_quoted(s, i1, alg_key(), r2);
    lemma_skip_concat(s, i1, q_alg, r2);
    let a = i1 + q_alg.len();
    let r3 = q0 + seq![','] + q_value + seq![':'] + q1 + seq!['}'] + rest;
    assert(s.skip(a) =~= seq![':'] + r3);
    lemma_skip_concat(s, a, seq![':'], r3);
    assert(s.skip(a)[0] == (seq![':'] + r3)[0]);
    assert(s[a] == ':');
    lemma_skip_ws_at(s, a);
    let a1: int = a + 1;
    let r4 = seq![','] + q_value + seq![':'] + q1 + seq!['}'] + rest;
    assert(s.skip(a1) =~= q0 + r4);
    assert(s.skip(a1)[0] == (q0 + r4)[0]);
    assert(s[a1] == '"');
    lemma_skip_ws_at(s, a1);
    lemma_parse_string_of_quoted(s, a1, p.0, r4);
    lemma_skip_concat(s, a1, q0, r4);
    let b = a1 + q0.len();
    let r5 = q_value + seq![':'] + q1 + seq!['}'] + rest;
    assert(s.skip(b) =~= seq![','] + r5);
    lemma_skip_concat(s, b, seq![','], r5);
    assert(s.skip(b)[0] == (seq![','] + r5)[0]);
    assert(s[b] == ',');
    lemma_skip_ws_at(s, b);
    let b1: int = b + 1;
    let r6 = seq![':'] + q1 + seq!['}'] + rest;
    assert(s.skip(b1) =~= q_value + r6);
    assert(s.skip(b1)[0] == (q_value + r6)[0]);
    assert(s[b1] == '"');
    lemma_skip_ws_at(s, b1);
    lemma_parse_string_of_quoted(s, b1, value_key(), r6);
    lemma_skip_concat(s, b1, q_value, r6);
    let c = b1 + q_value.len();
    let r7 = q1 + seq!['}'] + rest;
    assert(s.skip(c) =~= seq![':'] + r7);
    lemma_skip_concat(s, c, seq![':'], r7);
    assert(s.skip(c)[0] == (seq![':'] + r7)[0]);
    assert(s[c] == ':');
    lemma_skip_ws_at(s, c);
    let c1: int = c + 1;
    let r8 = seq!['}'] + rest;
    assert(s.skip(c1) =~= q1 + r8);
    assert(s.skip(c1)[0] == (q1 + r8)[0]);
    assert(s[c1] == '"');
    lemma_skip_ws_at(s, c1);
    lemma_parse_string_of_quoted(s, c1, p.1, r8);
    lemma_skip_concat(s, c1, q1, r8);
    let d = c1 + q1.len();
    assert(s.skip(d) =~= seq!['}'] + rest);
    lemma_skip_concat(s, d, seq!['}'], rest);
    assert(s.skip(d)[0] == (seq!['}'] + rest)[0]);
    assert(s[d] == '}');
    lemma_skip_ws_at(s, d);
    assert(pair_of_fields(alg_key(), p.0, value_key(), p.1) == Some((p.0, p.1)));
    assert((p.0, p.1) == p);
    assert(d + 1 == i + ser_pair(p).len());
    assert(spec_parse_pair(s, i) == Some((p, i + ser_pair(p).len())));
}

/// Reading back the comma-led tail of a serialized pair array.
proof fn lemma_parse_pairs_tail_of_ser(
    s: Seq<char>,
    i: int,
    acc: Seq<(Seq<char>, Seq<char>)>,
    ps: Seq<(Seq<char>, Seq<char>)>,
    rest: Seq<char>,
)
    requires
        0 <= i <= s.len(),
        s.skip(i) == ser_pairs_tail(ps) + rest,
    ensures
        spec_parse_pairs_tail(s, i, acc) == Some((acc + ps, i + ser_pairs_tail(ps).len())),
        i + ser_pairs_tail(ps).len() <= s.len(),
    decreases ps.len(),
{
    if ps.len() == 0 {
        assert(s.skip(i) =~= seq![']'] + rest);
        lemma_skip_concat(s, i, seq![']'], rest);
        assert(s.skip(i)[0] == (seq![']'] + rest)[0]);
        assert(s[i] == ']');
        lemma_skip_ws_at(s, i);
        assert(acc + ps =~= acc);
        assert(spec_parse_pairs_tail(s, i, acc) == Some((acc, i + 1)));
    } else {
        let p0 = ps[0];
        let tail = ser_pairs_tail(ps.drop_first());
        let r1 = ser_pair(p0) + tail + rest;
        assert(s.skip(i) =~= seq![','] + r1);
        lemma_skip_concat(s, i, seq![','], r1);
        assert(s.skip(i)[0] == (seq![','] + r1)[0]);
        assert(s[i] == ',');
        lemma_skip_ws_at(s, i);
        let i1 = i + 1;
        assert(s.skip(i1) =~= ser_pair(p0) + (tail + rest));
        assert(s.skip(i1)[0] == (ser_pair(p0) + (tail + rest))[0]);
        assert(s[i1] == '{');
        lemma_skip_ws_at(s, i1);
        lemma_parse_pair_of_ser(s, i1, p0, tail + rest);
        lemma_skip_concat(s, i1, ser_pair(p0), tail + rest);
        let k = i1 + ser_pair(p0).len();
        lemma_parse_pairs_tail_of_ser(s, k, acc.push(p0), ps.drop_first(), rest);
        assert(acc.push(p0) + ps.drop_first() =~= acc + ps);
        assert(spec_parse_pairs_tail(s, i, acc) == Some((acc + ps, i + ser_pairs_tail(ps).len())));
    }
}

/// Reading back a whole serialized pair array.
proof fn lemma_parse_array_of_ser(
    s: Seq<char>,
    i: int,
    ps: Seq<(Seq<char>, Seq<char>)>,
    rest: Seq<char>,
)
    requires
        0 <= i <= s.len(),
        s.skip(i) == ser_array(ps) + rest,
    ensures
        spec_parse_array(s, i) == Some((ps, i + ser_array(ps).len())),
        i + ser_array(ps).len() <= s.len(),
{
    if ps.len() == 0 {
        assert(s.skip(i) =~= seq!['['] + (seq![']'] + rest));
        lemma_skip_concat(s, i, seq!['['], seq![']'] + rest);
        assert(s.skip(i)[0] == (seq!['['] + (seq![']'] + rest))[0]);
        assert(s[i] == '[');
        let i1 = i + 1;
        assert(s.skip(i1)[0] == (seq![']'] + rest)[0]);
        assert(s[i1] == ']');
        lemma_skip_ws_at(s, i1);
        assert(ps =~= Seq::<(Seq<char>, Seq<char>)>::empty());
        assert(spec_parse_array(s, i) == Some((ps, i + 2)));
    } else {
        let p0 = ps[0];
        let tail = ser_pairs_tail(ps.drop_first());
        let r1 = ser_pair(p0) + (tail + rest);
        assert(s.skip(i) =~= seq!['['] + r1);
        lemma_skip_concat(s, i, seq!['['], r1);
        assert(s.skip(i)[0] == (seq!['['] + r1)[0]);
        assert(s[i] == '[');
        let i1 = i + 1;
        assert(s.skip(i1)[0] == r1[0]);
        assert(s[i1] == '{');
        lemma_skip_ws_at(s, i1);
        lemma_parse_pair_of_ser(s, i1, p0, tail + rest);
        lemma_skip_concat(s, i1, ser_pair(p0), tail + rest);
        let k = i1 + ser_pair(p0).len();
        lemma_parse_pairs_tail_of_ser(s, k, seq![p0], ps.drop_first(), rest);
        assert(seq![p0] + ps.drop_first() =~= ps);
        assert(spec_parse_array(s, i) == Some((ps, i + ser_array(ps).len())));
    }
}

/// Reading back one `"key":"value"` field followed by a separator, all
/// tokens adjacent.
proof fn lemma_parse_one_string_field(
    s: Seq<char>,
    i: int,
    key: Seq<char>,
    val: Seq<char>,
    sep: char,
    rest: Seq<char>,
)
    requires
        0 <= i <= s.len(),
        s.skip(i) == quoted(key) + seq![':'] + quoted(val) + seq![sep] + rest,
        !is_ws(sep),
    ensures
        spec_skip_ws(s, i) == i,
        spec_parse_string(s, i) == Some((key, i + quoted(key).len())),
        spec_skip_ws(s, i + quoted(key).len()) == i + quoted(key).len(),
        i + quoted(key).len() < s.len(),
        s[i + quoted(key).len()] == ':',
        spec_skip_ws(s, i + quoted(key).len() + 1) == i + quoted(key).len() + 1,
        spec_parse_string(s, i + quoted(key).len() + 1) == Some(
            (val, i + quoted(key).len() + 1 + quoted(val).len()),
        ),
        spec_skip_ws(s, i + quoted(key).len() + 1 + quoted(val).len()) == i + quoted(key).len() + 1
            + quoted(val).len(),
        i + quoted(key).len() + 1 + quoted(val).len() < s.len(),
        s[i + quoted(key).len() + 1 + quoted(val).len()] == sep,
        s.skip(i + quoted(key).len() + 2 + quoted(val).len()) == rest,
{
    let qk = quoted(key);
    let qv = quoted(val);
    let r2 = seq![':'] + qv + seq![sep] + rest;
    assert(s.skip(i) =~= qk + r2);
    assert(s.skip(i)[0] == (qk + r2)[0]);
    assert(s[i] == '"');
    lemma_skip_ws_at(s, i);
    lemma_parse_string_of_quoted(s, i, key, r2);
    lemma_skip_concat(s, i, qk, r2);
    let a: int = i + qk.len() as int;
    let r3 = qv + seq![sep] + rest;
    assert(s.skip(a) =~= seq![':'] + r3);
    lemma_skip_concat(s, a, seq![':'], r3);
    assert(s.skip(a)[0] == (seq![':'] + r3)[0]);
    assert(s[a] == ':');
    lemma_skip_ws_at(s, a);
    let a1: int = a + 1;
    let r4 = seq![sep] + rest;
    assert(s.skip(a1) =~= qv + r4);
    assert(s.skip(a1)[0] == (qv + r4)[0]);
    assert(s[a1] == '"');
    lemma_skip_ws_at(s, a1);
    lemma_parse_string_of_quoted(s, a1, val, r4);
    lemma_skip_concat(s, a1, qv, r4);
    let b: int = a1 + qv.len() as int;
    assert(s.skip(b) =~= seq![sep] + rest);
    lemma_skip_concat(s, b, seq![sep], rest);
    assert(s.skip(b)[0] == (seq![sep] + rest)[0]);
    assert(s[b] == sep);
    lemma_skip_ws_at(s, b);
}

/// The four field names of the wire form are pairwise distinct.
proof fn lemma_keys_distinct()
    ensures
        version_key() != name_key(),
        version_key() != expired_key(),
        version_key() != hash_value_key(),
        name_key() != expired_key(),
        name_key() != hash_value_key(),
        expired_key() != hash_value_key(),
{
    assert(version_key()[0] == 'v');
    assert(expired_key()[0] == 'e');
    assert(name_key().len() == 4);
    assert(version_key().len() == 7);
    assert(expired_key().len() == 7);
    assert(hash_value_key().len() == 10);
    assert(version_key() != expired_key()) by {
        if version_key() == expired_key() {
            assert(version_key()[0] == expired_key()[0]);
        }
    }
}

/// Positions of the tokens inside `ser_rv(v)`.
spec fn pos_a(v: ReferenceValueView) -> int {
    1 + quoted(version_key()).len() as int
}

spec fn pos_b(v: ReferenceValueView) -> int {
    pos_a(v) + 1 + quoted(v.version).len() as int
}

spec fn pos_c(v: ReferenceValueView) -> int {
    pos_b(v) + 1 + quoted(name_key()).len() as int
}

spec fn pos_d(v: ReferenceValueView) -> int {
    pos_c(v) + 1 + quoted(v.name).len() as int
}

spec fn pos_e(v: ReferenceValueView) -> int {
    pos_d(v) + 1 + quoted(expired_key()).len() as int
}

spec fn pos_f(v: ReferenceValueView) -> int {
    pos_e(v) + 1 + quoted(spec_format_timestamp(v.expired)).len() as int
}

spec fn pos_g(v: ReferenceValueView) -> int {
    pos_f(v) + 1 + quoted(hash_value_key()).len() as int
}

spec fn pos_h(v: ReferenceValueView) -> int {
    pos_g(v) + 1 + ser_array(v.hash_values).len() as int
}

/// The wire form after the `version` field's comma.
spec fn rest_after_version(v: ReferenceValueView) -> Seq<char> {
    quoted(name_key()) + seq![':'] + quoted(v.name) + seq![','] + rest_after_name(v)
}

/// The wire form after the `name` field's comma.
spec fn rest_after_name(v: ReferenceValueView) -> Seq<char> {
    quoted(expired_key()) + seq![':'] + quoted(spec_format_timestamp(v.expired)) + seq![',']
        + rest_after_expired(v)
}

/// The wire form after the `expired` field's comma.
spec fn rest_after_expired(v: ReferenceValueView) -> Seq<char> {
    quoted(hash_value_key()) + seq![':'] + ser_array(v.hash_values) + seq!['}']
}

/// The wire form split at the opening brace: the four field segments in
/// canonical order.
#[verifier::rlimit(100)]
#[verifier::spinoff_prover]
proof fn lemma_ser_rv_split(v: ReferenceValueView)
    requires
        v.expired.well_formed(),
    ensures
        ser_rv(v).len() > 0,
        ser_rv(v)[0] == '{',
        ser_rv(v).skip(1) == quoted(version_key()) + seq![':'] + quoted(v.version) + seq![',']
            + rest_after_version(v),
{
    lemma_keys_plain();
    lemma_format_timestamp_plain(v.expired);
    let s = ser_rv(v);
    let q_version = quoted(version_key());
    let q_name = quoted(name_key());
    let q_expired = quoted(expired_key());
    let q_hash = quoted(hash_value_key());
    let qv = quoted(v.version);
    let qn = quoted(v.name);
    let qf = quoted(spec_format_timestamp(v.expired));
    let arr = ser_array(v.hash_values);
    let rae = q_hash + seq![':'] + arr + seq!['}'];
    let ran = q_expired + seq![':'] + qf + seq![','] + rae;
    let rav = q_name + seq![':'] + qn + seq![','] + ran;
    let r1 = q_version + seq![':'] + qv + seq![','] + rav;
    assert(s.skip(0) =~= seq!['{'] + r1);
    lemma_skip_concat(s, 0, seq!['{'], r1);
    assert(s.skip(0)[0] == (seq!['{'] + r1)[0]);
    assert(s[0] == '{');
    assert(rest_after_expired(v) == rae);
    assert(rest_after_name(v) == ran);
    assert(rest_after_version(v) == rav);
    assert(s.skip(1) == r1);
}

/// The token walk over the tail of the wire form: the `hash-value`
/// field, its array, and the closing brace.
#[verifier::rlimit(100)]
#[verifier::spinoff_prover]
proof fn lemma_wire_tokens_hash(v: ReferenceValueView)
    requires
        0 <= pos_f(v) + 1 <= ser_rv(v).len(),
        ser_rv(v).skip(pos_f(v) + 1) == quoted(hash_value_key()) + seq![':'] + ser_array(
            v.hash_values,
        ) + seq!['}'],
        escape(hash_value_key()) == hash_value_key(),
    ensures
        ({
            let s = ser_rv(v);
            &&& spec_skip_ws(s, pos_f(v) + 1) == pos_f(v) + 1
            &&& spec_parse_string(s, pos_f(v) + 1) == Some((hash_value_key(), pos_g(v)))
            &&& spec_skip_ws(s, pos_g(v)) == pos_g(v)
            &&& 0 <= pos_g(v) < s.len()
            &&& s[pos_g(v)] == ':'
            &&& spec_skip_ws(s, pos_g(v) + 1) == pos_g(v) + 1
            &&& spec_parse_array(s, pos_g(v) + 1) == Some((v.hash_values, pos_h(v)))
            &&& spec_skip_ws(s, pos_h(v)) == pos_h(v)
            &&& 0 <= pos_h(v) < s.len()
            &&& s[pos_h(v)] == '}'
            &&& pos_h(v) + 1 == s.len()
            &&& spec_skip_ws(s, pos_h(v) + 1) == pos_h(v) + 1
        }),
{
    let s = ser_rv(v);
    let q_hash = quoted(hash_value_key());
    let arr = ser_array(v.hash_values);
    let f1: int = pos_f(v) + 1;
    let r14 = seq![':'] + arr + seq!['}'];
    assert(s.skip(f1) =~= q_hash + r14);
    assert(s.skip(f1)[0] == (q_hash + r14)[0]);
    assert(s[f1] == '"');
    lemma_skip_ws_at(s, f1);
    lemma_parse_string_of_quoted(s, f1, hash_value_key(), r14);
    lemma_skip_concat(s, f1, q_hash, r14);
    let g: int = pos_g(v);
    let r15 = arr + seq!['}'];
    assert(s.skip(g) =~= seq![':'] + r15);
    lemma_skip_concat(s, g, seq![':'], r15);
    assert(s.skip(g)[0] == (seq![':'] + r15)[0]);
    assert(s[g] == ':');
    lemma_skip_ws_at(s, g);
    let g1: int = g + 1;
    assert(s.skip(g1) =~= arr + seq!['}']);
    assert(s.skip(g1)[0] == (arr + seq!['}'])[0]);
    assert(s[g1] == '[');
    lemma_skip_ws_at(s, g1);
    lemma_parse_array_of_ser(s, g1, v.hash_values, seq!['}']);
    lemma_skip_concat(s, g1, arr, seq!['}']);
    let h: int = pos_h(v);
    assert(s.skip(h) =~= seq!['}'] + Seq::<char>::empty());
    lemma_skip_concat(s, h, seq!['}'], Seq::<char>::empty());
    assert(s.skip(h)[0] == (seq!['}'] + Seq::<char>::empty())[0]);
    assert(s[h] == '}');
    lemma_skip_ws_at(s, h);
    assert(s.skip(h + 1).len() == 0);
    assert(h + 1 == s.len());
    lemma_skip_ws_at(s, h + 1);
}

/// The token walk over the canonical wire form: where each string,
/// separator and the array stand, and what they parse to.
#[verifier::rlimit(100)]
#[verifier::spinoff_prover]
proof fn lemma_wire_tokens(v: ReferenceValueView)
    requires
        v.expired.well_formed(),
    ensures
        ({
            let s = ser_rv(v);
            &&& 0 < s.len()
            &&& s[0] == '{'
            &&& spec_skip_ws(s, 0) == 0
            &&& spec_skip_ws(s, 1) == 1
            &&& spec_parse_string(s, 1) == Some((version_key(), pos_a(v)))
            &&& spec_skip_ws(s, pos_a(v)) == pos_a(v)
            &&& 0 <= pos_a(v) < s.len()
            &&& s[pos_a(v)] == ':'
            &&& spec_skip_ws(s, pos_a(v) + 1) == pos_a(v) + 1
            &&& spec_parse_string(s, pos_a(v) + 1) == Some((v.version, pos_b(v)))
            &&& spec_skip_ws(s, pos_b(v)) == pos_b(v)
            &&& 0 <= pos_b(v) < s.len()
            &&& s[pos_b(v)] == ','
            &&& spec_skip_ws(s, pos_b(v) + 1) == pos_b(v) + 1
            &&& spec_parse_string(s, pos_b(v) + 1) == Some((name_key(), pos_c(v)))
            &&& spec_skip_ws(s, pos_c(v)) == pos_c(v)
            &&& 0 <= pos_c(v) < s.len()
            &&& s[pos_c(v)] == ':'
            &&& spec_skip_ws(s, pos_c(v) + 1) == pos_c(v) + 1
            &&& spec_parse_string(s, pos_c(v) + 1) == Some((v.name, pos_d(v)))
            &&& spec_skip_ws(s, pos_d(v)) == pos_d(v)
            &&& 0 <= pos_d(v) < s.len()
            &&& s[pos_d(v)] == ','
            &&& spec_skip_ws(s, pos_d(v) + 1) == pos_d(v) + 1
            &&& spec_parse_string(s, pos_d(v) + 1) == Some((expired_key(), pos_e(v)))
            &&& spec_skip_ws(s, pos_e(v)) == pos_e(v)
            &&& 0 <= pos_e(v) < s.len()
            &&& s[pos_e(v)] == ':'
            &&& spec_skip_ws(s, pos_e(v) + 1) == pos_e(v) + 1
            &&& spec_parse_string(s, pos_e(v) + 1) == Some(
                (spec_format_timestamp(v.expired), pos_f(v)),
            )
            &&& spec_parse_timestamp(spec_format_timestamp(v.expired)) == Some(v.expired)
            &&& spec_skip_ws(s, pos_f(v)) == pos_f(v)
            &&& 0 <= pos_f(v) < s.len()
            &&& s[pos_f(v)] == ','
            &&& spec_skip_ws(s, pos_f(v) + 1) == pos_f(v) + 1
            &&& spec_parse_string(s, pos_f(v) + 1) == Some((hash_value_key(), pos_g(v)))
            &&& spec_skip_ws(s, pos_g(v)) == pos_g(v)
            &&& 0 <= pos_g(v) < s.len()
            &&& s[pos_g(v)] == ':'
            &&& spec_skip_ws(s, pos_g(v) + 1) == pos_g(v) + 1
            &&& spec_parse_array(s, pos_g(v) + 1) == Some((v.hash_values, pos_h(v)))
            &&& spec_skip_ws(s, pos_h(v)) == pos_h(v)
            &&& 0 <= pos_h(v) < s.len()
            &&& s[pos_h(v)] == '}'
            &&& pos_h(v) + 1 == s.len()
            &&& spec_skip_ws(s, pos_h(v) + 1) == pos_h(v) + 1
        }),
{
    lemma_keys_plain();
    lemma_format_timestamp_plain(v.expired);
    lemma_ser_rv_split(v);
    let s = ser_rv(v);
    let fmt = spec_format_timestamp(v.expired);
    lemma_skip_ws_at(s, 0);
    assert(s.skip(1).len() == s.len() - 1);

    lemma_parse_one_string_field(s, 1, version_key(), v.version, ',', rest_after_version(v));
    lemma_parse_one_string_field(
        s,
        pos_b(v) + 1,
        name_key(),
        v.name,
        ',',
        rest_after_name(v),
    );
    lemma_parse_one_string_field(
        s,
        pos_d(v) + 1,
        expired_key(),
        fmt,
        ',',
        rest_after_expired(v),
    );
    lemma_wire_tokens_hash(v);
}

/// Round trip: reading back the canonical wire form of a reference
/// value yields exactly that value, for every value whose expiration is
/// well formed.
#[verifier::rlimit(100)]
#[verifier::spinoff_prover]
pub proof fn lemma_wire_roundtrip(v: ReferenceValueView)
    requires
        v.expired.well_formed(),
    ensures
        spec_parse_rv(ser_rv(v)) == Some(v),
{
    lemma_wire_tokens(v);
    lemma_keys_distinct();
    let s = ser_rv(v);
    let acc0 = FieldsAcc { version: None, name: None, expired: None, hash_values: None };
    let acc1 = FieldsAcc { version: Some(v.version), ..acc0 };
    let acc2 = FieldsAcc { name: Some(v.name), ..acc1 };
    let acc3 = FieldsAcc { expired: Some(v.expired), ..acc2 };
    let acc4 = FieldsAcc { hash_values: Some(v.hash_values), ..acc3 };
    assert(spec_parse_field_value(s, pos_a(v) + 1, version_key(), acc0) == Some((acc1, pos_b(v))));
    assert(spec_parse_field_value(s, pos_c(v) + 1, name_key(), acc1) == Some((acc2, pos_d(v))));
    assert(spec_parse_field_value(s, pos_e(v) + 1, expired_key(), acc2) == Some((acc3, pos_f(v))));
    assert(spec_parse_field_value(s, pos_g(v) + 1, hash_value_key(), acc3) == Some(
        (acc4, pos_h(v)),
    ));
    assert(spec_parse_fields(s, pos_f(v) + 1, acc3) == Some((acc4, pos_h(v) + 1)));
    assert(spec_parse_fields(s, pos_d(v) + 1, acc2) == Some((acc4, pos_h(v) + 1)));
    assert(spec_parse_fields(s, pos_b(v) + 1, acc1) == Some((acc4, pos_h(v) + 1)));
    assert(spec_parse_fields(s, 1, acc0) == Some((acc4, pos_h(v) + 1)));
    assert(spec_parse_rv(s) == Some(v));
}

/// After one array element: either the closing bracket, or a comma and
/// a further string, repeated.
pub open spec fn spec_parse_strings_tail(s: Seq<char>, i: int, acc: Seq<Seq<char>>) -> Option<(
    Seq<Seq<char>>,
    int,
)>
    decreases s.len() - i,
{
    let j = spec_skip_ws(s, i);
    if !(0 <= j < s.len()) {
        None
    } else if s[j] == ']' {
        Some((acc, j + 1))
    } else if s[j] == ',' {
        match spec_parse_string(s, spec_skip_ws(s, j + 1)) {
            Some((v, k)) => {
                if i < k <= s.len() {
                    spec_parse_strings_tail(s, k, acc.push(v))
                } else {
                    None
                }
            },
            None => None,
        }
    } else {
        None
    }
}

/// A whole text that holds one JSON array of strings and nothing else.
pub open spec fn spec_parse_string_list(s: Seq<char>) -> Option<Seq<Seq<char>>> {
    let i = spec_skip_ws(s, 0);
    if 0 <= i < s.len() && s[i] == '[' {
        let j = spec_skip_ws(s, i + 1);
        let parsed = if 0 <= j < s.len() && s[j] == ']' {
            Some((Seq::<Seq<char>>::empty(), j + 1))
        } else {
            match spec_parse_string(s, j) {
                Some((v, k)) => {
                    if i < k <= s.len() {
                        spec_parse_strings_tail(s, k, seq![v])
                    } else {
                        None
                    }
                },
                None => None,
            }
        };
        match parsed {
            Some((vs, e)) => {
                if spec_skip_ws(s, e) == s.len() {
                    Some(vs)
                } else {
                    None
                }
            },
            None => None,
        }
    } else {
        None
    }
}

/// The views of a vector of strings, elementwise.
pub open spec fn strings_view(vs: Seq<String>) -> Seq<Seq<char>> {
    Seq::new(vs.len(), |i: int| vs[i]@)
}

fn parse_strings_tail(s: &[char], i: usize, acc: Vec<String>) -> (r: Option<(Vec<String>, usize)>)
    requires
        i <= s@.len(),
    ensures
        r matches Some(vj) ==> spec_parse_strings_tail(s@, i as int, strings_view(acc@)) == Some(
            (strings_view(vj.0@), vj.1 as int),
        ) && vj.1 <= s@.len(),
        r is None ==> spec_parse_strings_tail(s@, i as int, strings_view(acc@)) is None,
    decreases s@.len() - i,
{
    let j = skip_ws(s, i);
    if !(j < s.len()) {
        return None;
    }
    if s[j] == ']' {
        return Some((acc, j + 1));
    }
    if s[j] != ',' {
        return None;
    }
    let vs = skip_ws(s, j + 1);
    match parse_string(s, vs) {
        Some((v, k)) => {
            if i < k && k <= s.len() {
                let ghost acc0 = acc@;
                let item = chars_to_string(&v);
                let ghost itemv = item@;
                let mut acc = acc;
                acc.push(item);
                proof {
                    assert(strings_view(acc@) =~= strings_view(acc0).push(itemv));
                }
                parse_strings_tail(s, k, acc)
            } else {
                None
            }
        },
        None => None,
    }
}

/// Reads a JSON array of strings, the only content of `text`.
pub fn parse_string_list(text: &str) -> (r: Option<Vec<String>>)
    ensures
        r matches Some(vs) ==> spec_parse_string_list(text@) == Some(strings_view(vs@)),
        r is None ==> spec_parse_string_list(text@) is None,
{
    let chars = str_to_chars(text);
    let s = chars.as_slice();
    let i = skip_ws(s, 0);
    if !(i < s.len() && s[i] == '[') {
        return None;
    }
    let j = skip_ws(s, i + 1);
    let parsed: Option<(Vec<String>, usize)> = if j < s.len() && s[j] == ']' {
        let empty: Vec<String> = Vec::new();
        proof {
            assert(strings_view(empty@) =~= Seq::<Seq<char>>::empty());
        }
        Some((empty, j + 1))
    } else {
        match parse_string(s, j) {
            Some((v, k)) => {
                if i < k && k <= s.len() {
                    let item = chars_to_string(&v);
                    let ghost itemv = item@;
                    let mut acc: Vec<String> = Vec::new();
                    acc.push(item);
                    proof {
                        assert(strings_view(acc@) =~= seq![itemv]);
                    }
                    parse_strings_tail(s, k, acc)
                } else {
                    None
                }
            },
            None => None,
        }
    };
    match parsed {
        Some((vs, e)) => {
            if skip_ws(s, e) == s.len() {
                Some(vs)
            } else {
                None
            }
        },
        None => None,
    }
}

} // verus!
