//! Textual rendering of field values: decimal text for integers,
//! the fixed texts for booleans, the debug form of strings, and the
//! backslash normalization applied to every extra-field value.

use vstd::prelude::*;

verus! {

/// The decimal digit character for a value below ten.
pub open spec fn dec_digit(d: int) -> char {
    if d == 0 {
        '0'
    } else if d == 1 {
        '1'
    } else if d == 2 {
        '2'
    } else if d == 3 {
        '3'
    } else if d == 4 {
        '4'
    } else if d == 5 {
        '5'
    } else if d == 6 {
        '6'
    } else if d == 7 {
        '7'
    } else if d == 8 {
        '8'
    } else {
        '9'
    }
}

/// Decimal text of a non-negative integer, most significant digit
/// first, with no leading zeros.
pub open spec fn dec_nat(n: int) -> Seq<char>
    recommends
        n >= 0,
    decreases n,
{
    if n < 10 {
        seq![dec_digit(n)]
    } else {
        dec_nat(n / 10).push(dec_digit(n % 10))
    }
}

/// Decimal text of an integer: a minus sign before the magnitude when
/// negative.
pub open spec fn dec_int(n: int) -> Seq<char> {
    if n < 0 {
        seq!['-'] + dec_nat(-n)
    } else {
        dec_nat(n)
    }
}

/// The text a boolean renders as.
pub open spec fn bool_text(v: bool) -> Seq<char> {
    if v {
        "true"@
    } else {
        "false"@
    }
}

fn digit_str(d: u128) -> (s: &'static str)
    requires
        d < 10,
    ensures
        s@ == seq![dec_digit(d as int)],
{
    proof {
        reveal_strlit("0");
        reveal_strlit("1");
        reveal_strlit("2");
        reveal_strlit("3");
        reveal_strlit("4");
        reveal_strlit("5");
        reveal_strlit("6");
        reveal_strlit("7");
        reveal_strlit("8");
        reveal_strlit("9");
    }
    let s = match d {
        0 => "0",
        1 => "1",
        2 => "2",
        3 => "3",
        4 => "4",
        5 => "5",
        6 => "6",
        7 => "7",
        8 => "8",
        _ => "9",
    };
    proof {
        assert(s@ =~= seq![dec_digit(d as int)]);
    }
    s
}

/// Renders an unsigned integer as its decimal text.
pub fn render_u128(v: u128) -> (s: String)
    ensures
        s@ == dec_nat(v as int),
    decreases v,
{
    if v < 10 {
        String::from_str(digit_str(v))
    } else {
        let mut s = render_u128(v / 10);
        s.append(digit_str(v % 10));
        proof {
            assert(s@ =~= dec_nat(v as int));
        }
        s
    }
}

/// Renders a signed integer as its decimal text, with its sign.
pub fn render_i128(v: i128) -> (s: String)
    ensures
        s@ == dec_int(v as int),
{
    if v >= 0 {
        render_u128(v as u128)
    } else {
        let magnitude: u128 = ((-(v + 1)) as u128) + 1;
        proof {
            reveal_strlit("-");
        }
        let mut s = String::from_str("-");
        let digits = render_u128(magnitude);
        s.append(digits.as_str());
        proof {
            assert(magnitude as int == -(v as int));
            assert(s@ =~= dec_int(v as int));
        }
        s
    }
}

/// Renders a boolean as its fixed text.
pub fn render_bool(v: bool) -> (s: String)
    ensures
        s@ == bool_text(v),
{
    if v {
        String::from_str("true")
    } else {
        String::from_str("false")
    }
}

/// Whether two strings hold the same characters.
pub fn str_eq(a: &str, b: &str) -> (r: bool)
    ensures
        r == (a@ == b@),
{
    let sa = String::from_str(a);
    let sb = String::from_str(b);
    sa == sb
}

/// Whether a field name is the reserved identifier name "id", matched
/// case-insensitively.
pub open spec fn is_id_name(s: Seq<char>) -> bool {
    &&& s.len() == 2
    &&& (s[0] == 'i' || s[0] == 'I')
    &&& (s[1] == 'd' || s[1] == 'D')
}

/// Checks a field name against the reserved identifier name.
pub fn check_id_name(s: &str) -> (r: bool)
    ensures
        r == is_id_name(s@),
{
    if s.unicode_len() != 2 {
        return false;
    }
    let c0 = s.get_char(0);
    let c1 = s.get_char(1);
    (c0 == 'i' || c0 == 'I') && (c1 == 'd' || c1 == 'D')
}

/// Collapses every two-backslash pair to a single backslash, scanning
/// left to right; all other characters pass through unchanged.
pub open spec fn collapse_spec(s: Seq<char>) -> Seq<char>
    decreases s.len(),
{
    if s.len() == 0 {
        Seq::empty()
    } else if s.len() >= 2 && s[0] == '\\' && s[1] == '\\' {
        seq!['\\'] + collapse_spec(s.skip(2))
    } else {
        seq![s[0]] + collapse_spec(s.skip(1))
    }
}

/// Normalizes the backslash escaping of a rendered value: each literal
/// two-backslash sequence becomes one backslash.
pub fn collapse_backslashes(s: &str) -> (r: String)
    ensures
        r@ == collapse_spec(s@),
{
    let n = s.unicode_len();
    let mut out = String::new();
    let mut i: usize = 0;
    proof {
        assert(s@.skip(0) =~= s@);
        assert(out@ + collapse_spec(s@) =~= collapse_spec(s@));
    }
    while i < n
        invariant
            i <= n,
            n == s@.len(),
            out@ + collapse_spec(s@.skip(i as int)) == collapse_spec(s@),
        decreases n - i,
    {
        let piece = s.substring_char(i, i + 1);
        out.append(piece);
        if i + 1 < n && s.get_char(i) == '\\' && s.get_char(i + 1) == '\\' {
            proof {
                let rest = s@.skip(i as int);
                assert(rest.len() >= 2 && rest[0] == '\\' && rest[1] == '\\');
                assert(rest.skip(2) =~= s@.skip(i as int + 2));
                assert(piece@ =~= seq!['\\']);
                assert(out@ + collapse_spec(s@.skip(i as int + 2)) =~= collapse_spec(s@));
            }
            i += 2;
        } else {
            proof {
                let rest = s@.skip(i as int);
                assert(!(rest.len() >= 2 && rest[0] == '\\' && rest[1] == '\\'));
                assert(rest.skip(1) =~= s@.skip(i as int + 1));
                assert(piece@ =~= seq![s@[i as int]]);
                assert(out@ + collapse_spec(s@.skip(i as int + 1)) =~= collapse_spec(s@));
            }
            i += 1;
        }
    }
    proof {
        assert(s@.skip(n as int) =~= Seq::<char>::empty());
        assert(out@ =~= collapse_spec(s@));
    }
    out
}

/// Law: a rendered value with no backslashes passes through the
/// collapse unchanged.
pub proof fn lemma_collapse_no_backslash(s: Seq<char>)
    requires
        forall|i: int| 0 <= i < s.len() ==> s[i] != '\\',
    ensures
        collapse_spec(s) == s,
    decreases s.len(),
{
    if s.len() == 0 {
        assert(collapse_spec(s) =~= s);
    } else {
        lemma_collapse_no_backslash(s.skip(1));
        assert(collapse_spec(s) =~= s);
    }
}

/// Law: a rendered value holding one literal two-backslash sequence
/// between backslash-free text comes out with a single backslash
/// there, the surrounding text unchanged.
pub proof fn lemma_collapse_pair(a: Seq<char>, b: Seq<char>)
    requires
        forall|i: int| 0 <= i < a.len() ==> a[i] != '\\',
        forall|i: int| 0 <= i < b.len() ==> b[i] != '\\',
    ensures
        collapse_spec(a + seq!['\\', '\\'] + b) == a + seq!['\\'] + b,
    decreases a.len(),
{
    let s = a + seq!['\\', '\\'] + b;
    if a.len() == 0 {
        assert(s[0] == '\\' && s[1] == '\\');
        assert(s.skip(2) =~= b);
        lemma_collapse_no_backslash(b);
        assert(collapse_spec(s) =~= a + seq!['\\'] + b);
    } else {
        assert(s[0] == a[0] && a[0] != '\\');
        assert(s.skip(1) =~= a.skip(1) + seq!['\\', '\\'] + b);
        lemma_collapse_pair(a.skip(1), b);
        assert(collapse_spec(s) =~= a + seq!['\\'] + b);
    }
}

/// What std's debug formatting renders a given string as; a function
/// of the characters alone.
pub uninterp spec fn str_debug(s: Seq<char>) -> Seq<char>;

/// Relies on std's `Debug` formatting of `str` (through `format!`):
/// the quoted, escaped debug form of the string, which depends on its
/// characters alone.
#[verifier::external_body]
pub(crate) fn debug_render_str(s: &str) -> (r: String)
    ensures
        r@ == str_debug(s@),
{
    format!("{:?}", s)
}

} // verus!
