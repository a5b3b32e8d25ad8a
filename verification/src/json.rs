//! A text codec for property records.
//!
//! A record is written as an object: the pairs in record order, text in
//! quotes with `"` and `\` escaped, integers in decimal, decimal-number
//! payloads as their stored literal, truth values as `true`/`false`, and
//! nested records as nested objects.  Pairs whose payload has no text form
//! (operation outcomes, record lists) are skipped.  The reader accepts the
//! same shape back, classifying an all-digit number token as an integer
//! when its value fits, and keeping any other number token as its literal
//! text.

use vstd::prelude::*;

use crate::convert::RawConverter;
use crate::model::Model;
use crate::propaty::{
    clone_record, prop_model, rec_model, PropModel, Propaty, PropatyValue, ValModel,
};
use crate::util::{chars_to_string, push_str_chars, string_to_chars};

verus! {

broadcast use
    {
        vstd::seq::group_seq_axioms,
        vstd::std_specs::vec::group_vec_axioms,
        crate::propaty::lemma_rec_model,
        crate::propaty::lemma_recs_model,
    }
;

/// How one character appears inside a quoted string.
pub open spec fn esc_char(c: char) -> Seq<char> {
    if c == '"' {
        seq!['\\', '"']
    } else if c == '\\' {
        seq!['\\', '\\']
    } else {
        seq![c]
    }
}

/// The body of a quoted string: every character escaped as needed.
pub open spec fn escaped(s: Seq<char>) -> Seq<char>
    decreases s.len(),
{
    if s.len() == 0 {
        Seq::empty()
    } else {
        esc_char(s.first()) + escaped(s.drop_first())
    }
}

/// Escaping distributes over appending one character.
pub proof fn lemma_escaped_snoc(t: Seq<char>, c: char)
    ensures
        escaped(t.push(c)) == escaped(t) + esc_char(c),
    decreases t.len(),
{
    if t.len() == 0 {
        assert(t.push(c).first() == c);
        assert(t.push(c).drop_first() =~= Seq::<char>::empty());
        assert(escaped(Seq::<char>::empty()) == Seq::<char>::empty());
        assert(escaped(t) == Seq::<char>::empty());
        assert(escaped(t.push(c)) =~= escaped(t) + esc_char(c));
    } else {
        assert(t.push(c).drop_first() =~= t.drop_first().push(c));
        lemma_escaped_snoc(t.drop_first(), c);
        assert(escaped(t.push(c)) =~= escaped(t) + esc_char(c));
    }
}

/// A quoted, escaped string.
pub open spec fn json_string(s: Seq<char>) -> Seq<char> {
    seq!['"'] + escaped(s) + seq!['"']
}

/// The decimal digit character for a value below ten.
pub open spec fn digit_char(d: int) -> char {
    if d == 0 {
        '0'
    } else if d == 1 {
        '1'
    } else if d == 2 {
        '2'
    } else if d == 3 {
        '3'
    } else if d == 4 {
        '4'
    } else if d == 5 {
        '5'
    } else if d == 6 {
        '6'
    } else if d == 7 {
        '7'
    } else if d == 8 {
        '8'
    } else {
        '9'
    }
}

/// The decimal digits of a non-negative number, most significant first.
pub open spec fn dec_digits(n: int) -> Seq<char>
    decreases n,
{
    if n < 10 {
        seq![digit_char(n)]
    } else {
        dec_digits(n / 10) + seq![digit_char(n % 10)]
    }
}

/// A signed integer in decimal.
pub open spec fn dec_int(i: i64) -> Seq<char> {
    if i < 0 {
        seq!['-'] + dec_digits(-(i as int))
    } else {
        dec_digits(i as int)
    }
}

/// Whether a payload has a text form of its own.
pub open spec fn is_encodable(v: ValModel) -> bool {
    match v {
        ValModel::Text(_) => true,
        ValModel::Int(_) => true,
        ValModel::Real(_) => true,
        ValModel::Flag(_) => true,
        ValModel::Record(_) => true,
        _ => false,
    }
}

/// The text of one value.
pub open spec fn json_of_val(v: ValModel) -> Seq<char>
    decreases v, 0int,
{
    match v {
        ValModel::Text(s) => json_string(s),
        ValModel::Int(i) => dec_int(i),
        ValModel::Real(t) => t,
        ValModel::Flag(b) => if b {
            seq!['t', 'r', 'u', 'e']
        } else {
            seq!['f', 'a', 'l', 's', 'e']
        },
        ValModel::Record(ps) => json_of_record(ps),
        _ => Seq::empty(),
    }
}

/// The text of one pair: the quoted key, a colon, the value.
pub open spec fn json_pair(p: PropModel) -> Seq<char>
    decreases p, 0int,
{
    json_string(p.key) + seq![':'] + json_of_val(p.value)
}

/// The comma-separated texts of the pairs from position `i` on, skipping
/// pairs without a text form; `first` says whether no pair was written yet.
pub open spec fn json_pairs_from(ps: Seq<PropModel>, i: int, first: bool) -> Seq<char>
    decreases ps, ps.len() - i,
{
    if i < 0 || i >= ps.len() {
        Seq::empty()
    } else if is_encodable(ps[i].value) {
        (if first {
            Seq::empty()
        } else {
            seq![',']
        }) + json_pair(ps[i]) + json_pairs_from(ps, i + 1, false)
    } else {
        json_pairs_from(ps, i + 1, first)
    }
}

/// The text of a whole record: an object of its pairs in order.
pub open spec fn json_of_record(ps: Seq<PropModel>) -> Seq<char>
    decreases ps, ps.len() + 1,
{
    seq!['{'] + json_pairs_from(ps, 0, true) + seq!['}']
}

/// Appends the quoted, escaped form of a string.
pub fn push_json_string(out: &mut Vec<char>, s: &str)
    ensures
        final(out)@ == old(out)@ + json_string(s@),
{
    out.push('"');
    let ghost base = out@;
    let n = s.unicode_len();
    let mut i: usize = 0;
    proof {
        assert(escaped(s@.take(0)) =~= Seq::<char>::empty());
        assert(out@ =~= base + escaped(s@.take(0)));
    }
    while i < n
        invariant
            i <= n,
            n == s@.len(),
            base == old(out)@ + seq!['"'],
            out@ == base + escaped(s@.take(i as int)),
        decreases n - i,
    {
        let c = s.get_char(i);
        if c == '"' || c == '\\' {
            out.push('\\');
            out.push(c);
        } else {
            out.push(c);
        }
        proof {
            lemma_escaped_snoc(s@.take(i as int), s@[i as int]);
            assert(s@.take(i as int).push(s@[i as int]) =~= s@.take(i as int + 1));
            assert(out@ =~= base + escaped(s@.take(i as int + 1)));
        }
        i = i + 1;
    }
    out.push('"');
    proof {
        assert(s@.take(n as int) =~= s@);
        assert(out@ =~= old(out)@ + json_string(s@));
    }
}

/// The digit character of a value below ten.
pub fn digit_to_char(d: u64) -> (c: char)
    requires
        d < 10,
    ensures
        c == digit_char(d as int),
{
    if d == 0 {
        '0'
    } else if d == 1 {
        '1'
    } else if d == 2 {
        '2'
    } else if d == 3 {
        '3'
    } else if d == 4 {
        '4'
    } else if d == 5 {
        '5'
    } else if d == 6 {
        '6'
    } else if d == 7 {
        '7'
    } else if d == 8 {
        '8'
    } else {
        '9'
    }
}

/// Appends a signed integer in decimal.
pub fn push_dec_i64(out: &mut Vec<char>, i: i64)
    ensures
        final(out)@ == old(out)@ + dec_int(i),
{
    let mag: u64 = if i < 0 {
        out.push('-');
        (-(i as i128)) as u64
    } else {
        i as u64
    };
    let ghost base = out@;
    let ghost start = mag;
    let mut tmp: Vec<char> = Vec::new();
    let mut cur: u64 = mag;
    if cur == 0 {
        out.push('0');
        proof {
            assert(dec_digits(0) =~= seq!['0']);
            assert(out@ =~= base + dec_digits(start as int));
            assert(out@ =~= old(out)@ + dec_int(i));
        }
        return ;
    }
    while cur > 0
        invariant
            cur > 0 ==> dec_digits(start as int) == dec_digits(cur as int) + tmp@.reverse(),
            cur == 0 ==> dec_digits(start as int) == tmp@.reverse(),
        decreases cur,
    {
        let d = cur % 10;
        let c = digit_to_char(d);
        let ghost pre = tmp@;
        tmp.push(c);
        proof {
            assert(tmp@.reverse() =~= seq![digit_char(d as int)] + pre.reverse());
            if cur >= 10 {
                assert(dec_digits(cur as int) == dec_digits(cur as int / 10) + seq![
                    digit_char(cur as int % 10),
                ]);
                assert(dec_digits(cur as int) + pre.reverse() =~= dec_digits(cur as int / 10)
                    + tmp@.reverse());
            } else {
                assert(dec_digits(cur as int) =~= seq![digit_char(cur as int)]);
                assert(dec_digits(cur as int) + pre.reverse() =~= tmp@.reverse());
            }
        }
        cur = cur / 10;
    }
    let mut j: usize = tmp.len();
    proof {
        assert(out@ =~= base + tmp@.reverse().take(0));
    }
    while j > 0
        invariant
            j <= tmp.len(),
            out@ == base + tmp@.reverse().take(tmp@.len() - j),
        decreases j,
    {
        j = j - 1;
        out.push(tmp[j]);
        proof {
            assert(tmp@.reverse()[tmp@.len() - j - 1] == tmp@[j as int]);
            assert(out@ =~= base + tmp@.reverse().take(tmp@.len() - j));
        }
    }
    proof {
        assert(tmp@.reverse().take(tmp@.len() as int) =~= tmp@.reverse());
        assert(out@ =~= old(out)@ + dec_int(i));
    }
}

/// Whether this value has a text form of its own.
pub fn encodable(v: &PropatyValue) -> (b: bool)
    ensures
        b == is_encodable(crate::propaty::val_model(*v)),
{
    match v {
        PropatyValue::Text(_) => true,
        PropatyValue::Int(_) => true,
        PropatyValue::Real(_) => true,
        PropatyValue::Flag(_) => true,
        PropatyValue::Record(_) => true,
        _ => false,
    }
}

/// Appends the text of one value.
pub fn encode_value(out: &mut Vec<char>, v: &PropatyValue)
    ensures
        final(out)@ == old(out)@ + json_of_val(crate::propaty::val_model(*v)),
    decreases *v, 0int,
{
    match v {
        PropatyValue::Text(s) => push_json_string(out, s.as_str()),
        PropatyValue::Int(i) => push_dec_i64(out, *i),
        PropatyValue::Real(t) => push_str_chars(out, t.as_str()),
        PropatyValue::Flag(b) => {
            if *b {
                push_str_chars(out, "true");
                proof {
                    reveal_strlit("true");
                    assert("true"@ =~= seq!['t', 'r', 'u', 'e']);
                }
            } else {
                push_str_chars(out, "false");
                proof {
                    reveal_strlit("false");
                    assert("false"@ =~= seq!['f', 'a', 'l', 's', 'e']);
                }
            }
        },
        PropatyValue::Record(ps) => encode_record(out, ps),
        _ => {
            proof {
                assert(out@ =~= old(out)@ + Seq::<char>::empty());
            }
        },
    }
}

/// Appends the text of one pair.
pub fn encode_pair(out: &mut Vec<char>, p: &Propaty)
    ensures
        final(out)@ == old(out)@ + json_pair(prop_model(*p)),
    decreases *p, 0int,
{
    push_json_string(out, p.key.as_str());
    out.push(':');
    encode_value(out, &p.value);
    proof {
        assert(old(out)@ + json_string(p.key@) + seq![':'] + json_of_val(
            crate::propaty::val_model(p.value),
        ) =~= old(out)@ + json_pair(prop_model(*p)));
    }
}

/// Appends the text of a whole record.
pub fn encode_record(out: &mut Vec<char>, ps: &Vec<Propaty>)
    ensures
        final(out)@ == old(out)@ + json_of_record(rec_model(*ps)),
    decreases *ps, ps@.len() + 1,
{
    out.push('{');
    let ghost base = out@;
    let ghost m = rec_model(*ps);
    let mut first = true;
    let mut i: usize = 0;
    proof {
        assert(out@ =~= base + Seq::<char>::empty());
        assert(Seq::<char>::empty() + json_pairs_from(m, 0, true) =~= json_pairs_from(m, 0, true));
    }
    while i < ps.len()
        invariant
            i <= ps.len(),
            m == rec_model(*ps),
            base == old(out)@ + seq!['{'],
            exists|e: Seq<char>|
                out@ == base + e && #[trigger] (e + json_pairs_from(m, i as int, first))
                    == json_pairs_from(m, 0, true),
        decreases ps@.len() - i,
    {
        let ghost e = choose|e: Seq<char>|
            out@ == base + e && #[trigger] (e + json_pairs_from(m, i as int, first))
                == json_pairs_from(m, 0, true);
        let enc = encodable(&ps[i].value);
        proof {
            assert(m[i as int] == prop_model(ps@[i as int]));
            assert(m[i as int].value == crate::propaty::val_model(ps@[i as int].value));
        }
        if enc {
            if !first {
                out.push(',');
            }
            encode_pair(out, &ps[i]);
            proof {
                let sep: Seq<char> = if first {
                    Seq::empty()
                } else {
                    seq![',']
                };
                let e2 = e + sep + json_pair(m[i as int]);
                assert(out@ =~= base + e2);
                assert(e2 + json_pairs_from(m, i as int + 1, false) =~= e + (sep + json_pair(
                    m[i as int],
                ) + json_pairs_from(m, i as int + 1, false)));
                assert(e2 + json_pairs_from(m, i as int + 1, false) == json_pairs_from(
                    m,
                    0,
                    true,
                ));
            }
            first = false;
        } else {
            proof {
                assert(json_pairs_from(m, i as int, first) == json_pairs_from(
                    m,
                    i as int + 1,
                    first,
                ));
                assert(e + json_pairs_from(m, i as int + 1, first) == json_pairs_from(m, 0, true));
            }
        }
        i = i + 1;
    }
    proof {
        let e0 = choose|e: Seq<char>|
            out@ == base + e && #[trigger] (e + json_pairs_from(m, ps@.len() as int, first))
                == json_pairs_from(m, 0, true);
        assert(json_pairs_from(m, ps@.len() as int, first) =~= Seq::<char>::empty());
        assert(e0 + Seq::<char>::empty() =~= e0);
        assert(out@ == base + json_pairs_from(m, 0, true));
    }
    out.push('}');
    proof {
        assert(out@ =~= old(out)@ + json_of_record(m));
    }
}

/// The text of a record.
pub fn record_to_json(ps: &Vec<Propaty>) -> (s: String)
    ensures
        s@ == json_of_record(rec_model(*ps)),
{
    let mut out: Vec<char> = Vec::new();
    encode_record(&mut out, ps);
    proof {
        assert(Seq::<char>::empty() + json_of_record(rec_model(*ps)) =~= json_of_record(
            rec_model(*ps),
        ));
    }
    chars_to_string(&out)
}

/// Whether a character is a decimal digit.
pub open spec fn is_digit(c: char) -> bool {
    c == '0' || c == '1' || c == '2' || c == '3' || c == '4' || c == '5' || c == '6' || c == '7'
        || c == '8' || c == '9'
}

/// The value of a digit character.
pub open spec fn digit_val(c: char) -> int {
    if c == '0' {
        0
    } else if c == '1' {
        1
    } else if c == '2' {
        2
    } else if c == '3' {
        3
    } else if c == '4' {
        4
    } else if c == '5' {
        5
    } else if c == '6' {
        6
    } else if c == '7' {
        7
    } else if c == '8' {
        8
    } else {
        9
    }
}

/// Whether a character can belong to a number token.
pub open spec fn is_num_char(c: char) -> bool {
    is_digit(c) || c == '-' || c == '+' || c == '.' || c == 'e' || c == 'E'
}

/// The unescaped body of a quoted string starting at `i` (just past the
/// opening quote), and the position past the closing quote.
pub open spec fn sp_string_body(s: Seq<char>, i: int) -> Option<(Seq<char>, int)>
    decreases s.len() - i,
{
    if i < 0 || i >= s.len() {
        None
    } else if s[i] == '"' {
        Some((Seq::empty(), i + 1))
    } else if s[i] == '\\' {
        if i + 1 < s.len() && (s[i + 1] == '"' || s[i + 1] == '\\') {
            match sp_string_body(s, i + 2) {
                Some((t, j)) => Some((seq![s[i + 1]] + t, j)),
                None => None,
            }
        } else {
            None
        }
    } else {
        match sp_string_body(s, i + 1) {
            Some((t, j)) => Some((seq![s[i]] + t, j)),
            None => None,
        }
    }
}

/// A quoted string starting at `i`.
pub open spec fn sp_string(s: Seq<char>, i: int) -> Option<(Seq<char>, int)> {
    if 0 <= i < s.len() && s[i] == '"' {
        sp_string_body(s, i + 1)
    } else {
        None
    }
}

/// The end of the number token starting at `i`.
pub open spec fn num_end(s: Seq<char>, i: int) -> int
    decreases s.len() - i,
{
    if i < 0 || i >= s.len() {
        i
    } else if is_num_char(s[i]) {
        num_end(s, i + 1)
    } else {
        i
    }
}

/// Whether every character of a token is a digit.
pub open spec fn all_digits(t: Seq<char>) -> bool {
    forall|k: int| 0 <= k < t.len() ==> is_digit(#[trigger] t[k])
}

/// The value of a digit string, most significant digit first.
pub open spec fn digits_value(t: Seq<char>) -> int
    decreases t.len(),
{
    if t.len() == 0 {
        0
    } else {
        digits_value(t.drop_last()) * 10 + digit_val(t.last())
    }
}

/// The integer a number token stands for, when it is a plain decimal whose
/// value fits a 64-bit signed integer.
pub open spec fn token_to_int(t: Seq<char>) -> Option<i64> {
    if t.len() > 0 && all_digits(t) {
        if digits_value(t) <= i64::MAX as int {
            Some(digits_value(t) as i64)
        } else {
            None
        }
    } else if t.len() > 1 && t[0] == '-' && all_digits(t.skip(1)) {
        if digits_value(t.skip(1)) <= 9223372036854775808int {
            Some((-digits_value(t.skip(1))) as i64)
        } else {
            None
        }
    } else {
        None
    }
}

/// The number starting at `i`: an integer when the token is a fitting
/// plain decimal, otherwise the token kept as literal text.
pub open spec fn sp_number(s: Seq<char>, i: int) -> Option<(ValModel, int)> {
    let e = num_end(s, i);
    if e == i {
        None
    } else {
        let t = s.subrange(i, e);
        match token_to_int(t) {
            Some(n) => Some((ValModel::Int(n), e)),
            None => Some((ValModel::Real(t), e)),
        }
    }
}

/// A `true` or `false` literal starting at `i`.
pub open spec fn sp_bool(s: Seq<char>, i: int) -> Option<(ValModel, int)> {
    if 0 <= i && i + 4 <= s.len() && s.subrange(i, i + 4) == seq!['t', 'r', 'u', 'e'] {
        Some((ValModel::Flag(true), i + 4))
    } else if 0 <= i && i + 5 <= s.len() && s.subrange(i, i + 5) == seq!['f', 'a', 'l', 's', 'e'] {
        Some((ValModel::Flag(false), i + 5))
    } else {
        None
    }
}

/// A value starting at `i`: a string, a nested object, a truth literal or
/// a number, by its first character.  The `gas` bounds the recursion and
/// is in every use at least the remaining text length, which nested
/// objects can never exhaust.
pub open spec fn sp_value(s: Seq<char>, i: int, gas: nat) -> Option<(ValModel, int)>
    decreases gas,
{
    if gas == 0 {
        None
    } else if i < 0 || i >= s.len() {
        None
    } else if s[i] == '"' {
        match sp_string(s, i) {
            Some((t, j)) => Some((ValModel::Text(t), j)),
            None => None,
        }
    } else if s[i] == '{' {
        match sp_record(s, i, (gas - 1) as nat) {
            Some((ps, j)) => Some((ValModel::Record(ps), j)),
            None => None,
        }
    } else if s[i] == 't' || s[i] == 'f' {
        sp_bool(s, i)
    } else if is_num_char(s[i]) {
        sp_number(s, i)
    } else {
        None
    }
}

/// An object starting at `i`.
pub open spec fn sp_record(s: Seq<char>, i: int, gas: nat) -> Option<(Seq<PropModel>, int)>
    decreases gas,
{
    if gas == 0 {
        None
    } else if 0 <= i && i < s.len() && s[i] == '{' {
        if i + 1 < s.len() && s[i + 1] == '}' {
            Some((Seq::empty(), i + 2))
        } else {
            sp_pairs(s, i + 1, (gas - 1) as nat)
        }
    } else {
        None
    }
}

/// One or more comma-separated pairs from `i` up to a closing brace.
pub open spec fn sp_pairs(s: Seq<char>, i: int, gas: nat) -> Option<(Seq<PropModel>, int)>
    decreases gas,
{
    if gas == 0 {
        None
    } else {
        match sp_string(s, i) {
            Some((k, j)) => if 0 <= j < s.len() && s[j] == ':' {
                match sp_value(s, j + 1, (gas - 1) as nat) {
                    Some((v, j2)) => if 0 <= j2 < s.len() && s[j2] == ',' {
                        match sp_pairs(s, j2 + 1, (gas - 1) as nat) {
                            Some((rest, j3)) => Some(
                                (seq![PropModel { key: k, value: v }] + rest, j3),
                            ),
                            None => None,
                        }
                    } else if 0 <= j2 < s.len() && s[j2] == '}' {
                        Some((seq![PropModel { key: k, value: v }], j2 + 1))
                    } else {
                        None
                    },
                    None => None,
                }
            } else {
                None
            },
            None => None,
        }
    }
}

/// A whole text parsed as one record, with nothing left over.
pub open spec fn spec_json_to_record(s: Seq<char>) -> Option<Seq<PropModel>> {
    match sp_record(s, 0, s.len()) {
        Some((ps, j)) => if j == s.len() {
            Some(ps)
        } else {
            None
        },
        None => None,
    }
}

/// Reads a quoted string's body.
fn p_string_body(s: &Vec<char>, i: usize) -> (r: Option<(Vec<char>, usize)>)
    ensures
        match r {
            Some((t, j)) => sp_string_body(s@, i as int) == Some((t@, j as int)) && j <= s.len(),
            None => sp_string_body(s@, i as int) is None,
        },
    decreases s.len() - i,
{
    if i >= s.len() {
        return None;
    }
    let c = s[i];
    if c == '"' {
        Some((Vec::new(), i + 1))
    } else if c == '\\' {
        if i + 1 < s.len() && (s[i + 1] == '"' || s[i + 1] == '\\') {
            match p_string_body(s, i + 2) {
                Some((t, j)) => {
                    let mut t = t;
                    t.insert(0, s[i + 1]);
                    proof {
                        assert(t@ =~= seq![s@[i as int + 1]] + t@.drop_first());
                    }
                    Some((t, j))
                },
                None => None,
            }
        } else {
            None
        }
    } else {
        match p_string_body(s, i + 1) {
            Some((t, j)) => {
                let mut t = t;
                t.insert(0, c);
                proof {
                    assert(t@ =~= seq![s@[i as int]] + t@.drop_first());
                }
                Some((t, j))
            },
            None => None,
        }
    }
}

/// Reads a quoted string.
fn p_string(s: &Vec<char>, i: usize) -> (r: Option<(Vec<char>, usize)>)
    ensures
        match r {
            Some((t, j)) => sp_string(s@, i as int) == Some((t@, j as int)) && j <= s.len(),
            None => sp_string(s@, i as int) is None,
        },
{
    if i < s.len() && s[i] == '"' {
        p_string_body(s, i + 1)
    } else {
        None
    }
}

/// Whether a character is a decimal digit.
fn p_is_digit(c: char) -> (b: bool)
    ensures
        b == is_digit(c),
{
    c == '0' || c == '1' || c == '2' || c == '3' || c == '4' || c == '5' || c == '6' || c == '7'
        || c == '8' || c == '9'
}

/// Whether a character can belong to a number token.
fn p_is_num_char(c: char) -> (b: bool)
    ensures
        b == is_num_char(c),
{
    p_is_digit(c) || c == '-' || c == '+' || c == '.' || c == 'e' || c == 'E'
}

/// Finds the end of the number token starting at `i`.
fn p_num_end(s: &Vec<char>, i: usize) -> (e: usize)
    requires
        i <= s.len(),
    ensures
        e as int == num_end(s@, i as int),
        i <= e <= s.len(),
{
    let mut j = i;
    while j < s.len() && p_is_num_char(s[j])
        invariant
            i <= j <= s.len(),
            num_end(s@, i as int) == num_end(s@, j as int),
        decreases s.len() - j,
    {
        j = j + 1;
    }
    j
}

/// The value of a digit character.
fn p_digit_val(c: char) -> (d: u64)
    requires
        is_digit(c),
    ensures
        d == digit_val(c),
        d < 10,
{
    if c == '0' {
        0
    } else if c == '1' {
        1
    } else if c == '2' {
        2
    } else if c == '3' {
        3
    } else if c == '4' {
        4
    } else if c == '5' {
        5
    } else if c == '6' {
        6
    } else if c == '7' {
        7
    } else if c == '8' {
        8
    } else {
        9
    }
}

/// Classifies the token between `from` and `to` as a fitting plain decimal.
#[verifier::loop_isolation(false)]
fn p_token_int(s: &Vec<char>, from: usize, to: usize) -> (r: Option<i64>)
    requires
        from < to <= s.len(),
    ensures
        r == token_to_int(s@.subrange(from as int, to as int)),
{
    let ghost t = s@.subrange(from as int, to as int);
    let neg = s[from] == '-';
    let dstart = if neg {
        from + 1
    } else {
        from
    };
    proof {
        assert(t.len() == to - from);
        assert(t[0] == s@[from as int]);
    }
    if dstart >= to {
        proof {
            assert(t[0] == '-' && t.len() == 1);
            assert(!is_digit(t[0]));
        }
        return None;
    }
    let ghost d = s@.subrange(dstart as int, to as int);
    proof {
        if neg {
            assert(d =~= t.skip(1));
        } else {
            assert(d =~= t);
        }
    }
    // check all digits
    let mut k = dstart;
    while k < to
        invariant
            dstart <= k <= to,
            to <= s.len(),
            d == s@.subrange(dstart as int, to as int),
            forall|k2: int| 0 <= k2 < k - dstart ==> is_digit(#[trigger] d[k2]),
        decreases to - k,
    {
        if !p_is_digit(s[k]) {
            proof {
                assert(d[k - dstart] == s@[k as int]);
                assert(!all_digits(d));
                if neg {
                    assert(t[0] == '-');
                    assert(!is_digit(t[0]));
                    assert(!all_digits(t));
                } else {
                    assert(!all_digits(t));
                }
            }
            return None;
        }
        k = k + 1;
    }
    proof {
        assert(all_digits(d));
    }
    // accumulate, watching for overflow past 2^63
    let mut acc: u128 = 0;
    let mut sat = false;
    let mut k = dstart;
    proof {
        assert(d.take(0) =~= Seq::<char>::empty());
    }
    while k < to
        invariant
            dstart <= k <= to,
            to <= s.len(),
            d == s@.subrange(dstart as int, to as int),
            all_digits(d),
            !sat ==> acc == digits_value(d.take(k - dstart)) && acc <= 9223372036854775808u128,
            sat ==> digits_value(d.take(k - dstart)) > 9223372036854775808int,
        decreases to - k,
    {
        proof {
            assert(d[k - dstart] == s@[k as int]);
            assert(is_digit(d[k - dstart]));
        }
        let dv = p_digit_val(s[k]);
        proof {
            assert(d.take(k - dstart).push(d[k - dstart]) =~= d.take(k - dstart + 1));
            assert(d.take(k - dstart + 1).drop_last() =~= d.take(k - dstart));
            assert(digits_value(d.take(k - dstart + 1)) == digits_value(d.take(k - dstart)) * 10
                + digit_val(d[k - dstart]));
        }
        if sat {
            proof {
                assert(digits_value(d.take(k - dstart + 1)) > 9223372036854775808int);
            }
        } else {
            let next = acc * 10 + (dv as u128);
            if next > 9223372036854775808u128 {
                sat = true;
                proof {
                    assert(digits_value(d.take(k - dstart + 1)) > 9223372036854775808int);
                }
            } else {
                acc = next;
            }
        }
        k = k + 1;
    }
    proof {
        assert(d.take(to - dstart) =~= d);
    }
    if sat {
        return None;
    }
    if neg {
        if acc == 9223372036854775808u128 {
            Some(i64::MIN)
        } else {
            Some(-(acc as i64))
        }
    } else {
        if acc <= 9223372036854775807u128 {
            Some(acc as i64)
        } else {
            None
        }
    }
}

/// Reads a number token.
fn p_number(s: &Vec<char>, i: usize) -> (r: Option<(PropatyValue, usize)>)
    requires
        i <= s.len(),
    ensures
        match r {
            Some((v, j)) => sp_number(s@, i as int) == Some(
                (crate::propaty::val_model(v), j as int),
            ) && j <= s.len(),
            None => sp_number(s@, i as int) is None,
        },
{
    let e = p_num_end(s, i);
    if e == i {
        return None;
    }
    match p_token_int(s, i, e) {
        Some(n) => Some((PropatyValue::Int(n), e)),
        None => {
            let mut token: Vec<char> = Vec::new();
            let mut k = i;
            while k < e
                invariant
                    i <= k <= e <= s.len(),
                    token@ == s@.subrange(i as int, k as int),
                decreases e - k,
            {
                token.push(s[k]);
                proof {
                    assert(token@ =~= s@.subrange(i as int, k as int + 1));
                }
                k = k + 1;
            }
            Some((PropatyValue::Real(chars_to_string(&token)), e))
        },
    }
}

/// Reads a truth literal.
fn p_bool(s: &Vec<char>, i: usize) -> (r: Option<(PropatyValue, usize)>)
    requires
        i < s.len(),
    ensures
        match r {
            Some((v, j)) => sp_bool(s@, i as int) == Some(
                (crate::propaty::val_model(v), j as int),
            ) && j <= s.len(),
            None => sp_bool(s@, i as int) is None,
        },
{
    if s.len() - i >= 4 && s[i] == 't' && s[i + 1] == 'r' && s[i + 2] == 'u' && s[i + 3] == 'e' {
        proof {
            assert(s@.subrange(i as int, i as int + 4) =~= seq!['t', 'r', 'u', 'e']);
        }
        Some((PropatyValue::Flag(true), i + 4))
    } else if s.len() - i >= 5 && s[i] == 'f' && s[i + 1] == 'a' && s[i + 2] == 'l' && s[i + 3]
        == 's' && s[i + 4] == 'e' {
        proof {
            assert(s@.subrange(i as int, i as int + 5) =~= seq!['f', 'a', 'l', 's', 'e']);
            if s@.subrange(i as int, i as int + 4) == seq!['t', 'r', 'u', 'e'] {
                assert(s@[i as int] == 't' && s@[i as int] == 'f');
            }
        }
        Some((PropatyValue::Flag(false), i + 5))
    } else {
        proof {
            if i as int + 4 <= s@.len() && s@.subrange(i as int, i as int + 4) == seq![
                't',
                'r',
                'u',
                'e',
            ] {
                assert(s@.subrange(i as int, i as int + 4)[0] == 't');
                assert(s@.subrange(i as int, i as int + 4)[1] == 'r');
                assert(s@.subrange(i as int, i as int + 4)[2] == 'u');
                assert(s@.subrange(i as int, i as int + 4)[3] == 'e');
            }
            if i as int + 5 <= s@.len() && s@.subrange(i as int, i as int + 5) == seq![
                'f',
                'a',
                'l',
                's',
                'e',
            ] {
                assert(s@.subrange(i as int, i as int + 5)[0] == 'f');
                assert(s@.subrange(i as int, i as int + 5)[1] == 'a');
                assert(s@.subrange(i as int, i as int + 5)[2] == 'l');
                assert(s@.subrange(i as int, i as int + 5)[3] == 's');
                assert(s@.subrange(i as int, i as int + 5)[4] == 'e');
            }
        }
        None
    }
}

/// Reads one value.
fn p_value(s: &Vec<char>, i: usize, gas: usize) -> (r: Option<(PropatyValue, usize)>)
    ensures
        match r {
            Some((v, j)) => sp_value(s@, i as int, gas as nat) == Some(
                (crate::propaty::val_model(v), j as int),
            ) && j <= s.len(),
            None => sp_value(s@, i as int, gas as nat) is None,
        },
    decreases gas,
{
    if gas == 0 {
        return None;
    }
    if i >= s.len() {
        return None;
    }
    let c = s[i];
    if c == '"' {
        match p_string(s, i) {
            Some((t, j)) => Some((PropatyValue::Text(chars_to_string(&t)), j)),
            None => None,
        }
    } else if c == '{' {
        match p_record(s, i, gas - 1) {
            Some((ps, j)) => {
                proof {
                    crate::propaty::lemma_rec_model(ps);
                }
                Some((PropatyValue::Record(ps), j))
            },
            None => None,
        }
    } else if c == 't' || c == 'f' {
        p_bool(s, i)
    } else if p_is_num_char(c) {
        p_number(s, i)
    } else {
        None
    }
}

/// Reads one object.
pub fn p_record(s: &Vec<char>, i: usize, gas: usize) -> (r: Option<(Vec<Propaty>, usize)>)
    ensures
        match r {
            Some((ps, j)) => sp_record(s@, i as int, gas as nat) == Some(
                (rec_model(ps), j as int),
            ) && j <= s.len(),
            None => sp_record(s@, i as int, gas as nat) is None,
        },
    decreases gas,
{
    if gas == 0 {
        return None;
    }
    if i < s.len() && s[i] == '{' {
        if i + 1 < s.len() && s[i + 1] == '}' {
            let empty: Vec<Propaty> = Vec::new();
            proof {
                assert(rec_model(empty) =~= Seq::<PropModel>::empty());
            }
            Some((empty, i + 2))
        } else {
            p_pairs(s, i + 1, gas - 1)
        }
    } else {
        None
    }
}

/// Reads one or more comma-separated pairs up to a closing brace.
fn p_pairs(s: &Vec<char>, i: usize, gas: usize) -> (r: Option<(Vec<Propaty>, usize)>)
    ensures
        match r {
            Some((ps, j)) => sp_pairs(s@, i as int, gas as nat) == Some(
                (rec_model(ps), j as int),
            ) && j <= s.len(),
            None => sp_pairs(s@, i as int, gas as nat) is None,
        },
    decreases gas,
{
    if gas == 0 {
        return None;
    }
    match p_string(s, i) {
        Some((k, j)) => {
            if j < s.len() && s[j] == ':' {
                match p_value(s, j + 1, gas - 1) {
                    Some((v, j2)) => {
                        let pair = Propaty { key: chars_to_string(&k), value: v };
                        if j2 < s.len() && s[j2] == ',' {
                            match p_pairs(s, j2 + 1, gas - 1) {
                                Some((rest, j3)) => {
                                    let mut out: Vec<Propaty> = Vec::new();
                                    out.push(pair);
                                    let mut rest = rest;
                                    let ghost rm = rec_model(rest);
                                    out.append(&mut rest);
                                    proof {
                                        assert(rec_model(out) =~= seq![
                                            PropModel { key: k@, value: crate::propaty::val_model(v) },
                                        ] + rm);
                                    }
                                    Some((out, j3))
                                },
                                None => None,
                            }
                        } else if j2 < s.len() && s[j2] == '}' {
                            let mut out: Vec<Propaty> = Vec::new();
                            out.push(pair);
                            proof {
                                assert(rec_model(out) =~= seq![
                                    PropModel { key: k@, value: crate::propaty::val_model(v) },
                                ]);
                            }
                            Some((out, j2 + 1))
                        } else {
                            None
                        }
                    },
                    None => None,
                }
            } else {
                None
            }
        },
        None => None,
    }
}

/// The decimal digits of a non-negative number are digits, start without
/// a spurious zero, and stand for the number itself.
pub proof fn lemma_dec_digits_value(n: int)
    requires
        0 <= n,
    ensures
        all_digits(dec_digits(n)),
        digits_value(dec_digits(n)) == n,
        dec_digits(n).len() >= 1,
    decreases n,
{
    if n < 10 {
        assert(dec_digits(n) =~= seq![digit_char(n)]);
        assert(digits_value(dec_digits(n).drop_last()) == 0) by {
            assert(dec_digits(n).drop_last() =~= Seq::<char>::empty());
        }
    } else {
        lemma_dec_digits_value(n / 10);
        let whole = dec_digits(n / 10) + seq![digit_char(n % 10)];
        assert(dec_digits(n) == whole);
        assert(whole.drop_last() =~= dec_digits(n / 10));
        assert(whole.last() == digit_char(n % 10));
        assert(digits_value(whole) == digits_value(dec_digits(n / 10)) * 10 + digit_val(
            digit_char(n % 10),
        ));
        assert(digit_val(digit_char(n % 10)) == n % 10);
        assert forall|k: int| 0 <= k < whole.len() implies is_digit(#[trigger] whole[k]) by {
            if k < dec_digits(n / 10).len() {
                assert(whole[k] == dec_digits(n / 10)[k]);
            } else {
                assert(whole[k] == digit_char(n % 10));
            }
        }
    }
}

/// An integer written in decimal is classified back as exactly that
/// integer.
pub proof fn lemma_int_token_round_trip(n: i64)
    ensures
        token_to_int(dec_int(n)) == Some(n),
{
    if n < 0 {
        let mag = -(n as int);
        lemma_dec_digits_value(mag);
        let t = seq!['-'] + dec_digits(mag);
        assert(dec_int(n) == t);
        assert(t[0] == '-');
        assert(!is_digit('-'));
        assert(!all_digits(t));
        assert(t.skip(1) =~= dec_digits(mag));
        assert(digits_value(t.skip(1)) == mag);
        assert(mag <= 9223372036854775808int);
        assert((-mag) as i64 == n);
    } else {
        lemma_dec_digits_value(n as int);
        let t = dec_digits(n as int);
        assert(dec_int(n) == t);
        assert(digits_value(t) == n as int);
        assert(n as int <= i64::MAX as int);
        assert((n as int) as i64 == n);
    }
}

/// Reading a quoted string's body at a position where the escaped body and
/// its closing quote stand returns exactly the unescaped characters.
proof fn lemma_parse_string_body_at(s: Seq<char>, j: int, k: Seq<char>)
    requires
        0 <= j,
        j + escaped(k).len() + 1 <= s.len(),
        s.subrange(j, j + escaped(k).len() + 1) == escaped(k) + seq!['"'],
    ensures
        sp_string_body(s, j) == Some((k, j + escaped(k).len() + 1)),
    decreases k.len(),
{
    let piece = escaped(k) + seq!['"'];
    if k.len() == 0 {
        assert(escaped(k) == Seq::<char>::empty());
        assert(s[j] == piece[0]);
        assert(s[j] == '"');
    } else {
        let k0 = k.first();
        let rest = k.drop_first();
        assert(escaped(k) == esc_char(k0) + escaped(rest));
        let tail_piece = escaped(rest) + seq!['"'];
        if k0 == '"' || k0 == '\\' {
            assert(esc_char(k0) =~= seq!['\\', k0]);
            assert(s[j] == piece[0] && piece[0] == '\\');
            assert(s[j + 1] == piece[1] && piece[1] == k0);
            assert forall|x: int| 0 <= x < tail_piece.len() implies s[j + 2 + x]
                == tail_piece[x] by {
                assert(s[j + 2 + x] == s.subrange(j, j + piece.len())[2 + x]);
                assert(piece[2 + x] == tail_piece[x]);
            }
            assert(s.subrange(j + 2, j + 2 + tail_piece.len()) =~= tail_piece);
            lemma_parse_string_body_at(s, j + 2, rest);
            assert(seq![s[j + 1]] + rest =~= k);
        } else {
            assert(esc_char(k0) =~= seq![k0]);
            assert(s[j] == piece[0] && piece[0] == k0);
            assert(s[j] != '"' && s[j] != '\\');
            assert forall|x: int| 0 <= x < tail_piece.len() implies s[j + 1 + x]
                == tail_piece[x] by {
                assert(s[j + 1 + x] == s.subrange(j, j + piece.len())[1 + x]);
                assert(piece[1 + x] == tail_piece[x]);
            }
            assert(s.subrange(j + 1, j + 1 + tail_piece.len()) =~= tail_piece);
            lemma_parse_string_body_at(s, j + 1, rest);
            assert(seq![s[j]] + rest =~= k);
        }
    }
}

/// Round-trip of the codec on quoted strings: the written form of any
/// characters, read at its position in a larger text, yields exactly those
/// characters and stops just past the closing quote.
pub proof fn lemma_parse_string_at(s: Seq<char>, i: int, k: Seq<char>)
    requires
        0 <= i,
        i + json_string(k).len() <= s.len(),
        s.subrange(i, i + json_string(k).len()) == json_string(k),
    ensures
        sp_string(s, i) == Some((k, i + json_string(k).len())),
{
    let piece = json_string(k);
    assert(s[i] == piece[0] && piece[0] == '"');
    let body = escaped(k) + seq!['"'];
    assert forall|x: int| 0 <= x < body.len() implies s[i + 1 + x] == body[x] by {
        assert(s[i + 1 + x] == s.subrange(i, i + piece.len())[1 + x]);
        assert(piece[1 + x] == body[x]);
    }
    assert(s.subrange(i + 1, i + 1 + body.len()) =~= body);
    lemma_parse_string_body_at(s, i + 1, k);
}

/// Every character of a decimal token belongs to a number token.
pub proof fn lemma_dec_int_num_chars(n: i64)
    ensures
        forall|j: int| 0 <= j < dec_int(n).len() ==> is_num_char(#[trigger] dec_int(n)[j]),
        dec_int(n).len() >= 1,
{
    if n < 0 {
        lemma_dec_digits_value(-(n as int));
        assert forall|j: int| 0 <= j < dec_int(n).len() implies is_num_char(
            #[trigger] dec_int(n)[j],
        ) by {
            if j == 0 {
                assert(dec_int(n)[0] == '-');
            } else {
                assert(dec_int(n)[j] == dec_digits(-(n as int))[j - 1]);
                assert(is_digit(dec_digits(-(n as int))[j - 1]));
            }
        }
    } else {
        lemma_dec_digits_value(n as int);
        assert forall|j: int| 0 <= j < dec_int(n).len() implies is_num_char(
            #[trigger] dec_int(n)[j],
        ) by {
            assert(is_digit(dec_digits(n as int)[j]));
        }
    }
}

/// The number scan stops exactly where the number characters stop.
proof fn lemma_num_end_at(s: Seq<char>, i: int, e: int)
    requires
        0 <= i <= e <= s.len(),
        forall|j: int| i <= j < e ==> is_num_char(#[trigger] s[j]),
        e < s.len() ==> !is_num_char(s[e as int]),
    ensures
        num_end(s, i) == e,
    decreases e - i,
{
    if i < e {
        lemma_num_end_at(s, i + 1, e);
    }
}

/// Round-trip of the codec on integers: the decimal form of any integer,
/// read at its position in a larger text and followed by something other
/// than a number character, yields exactly that integer.
pub proof fn lemma_parse_number_at(s: Seq<char>, i: int, n: i64)
    requires
        0 <= i,
        i + dec_int(n).len() <= s.len(),
        s.subrange(i, i + dec_int(n).len()) == dec_int(n),
        i + dec_int(n).len() < s.len() ==> !is_num_char(s[i + dec_int(n).len()]),
    ensures
        sp_number(s, i) == Some((ValModel::Int(n), i + dec_int(n).len())),
{
    let t = dec_int(n);
    let e = i + t.len();
    lemma_dec_int_num_chars(n);
    assert forall|j: int| i <= j < e implies is_num_char(#[trigger] s[j]) by {
        assert(s[j] == t[j - i]);
        assert(is_num_char(t[j - i]));
    }
    lemma_num_end_at(s, i, e);
    assert(s.subrange(i, e) == t);
    lemma_int_token_round_trip(n);
}

/// Splitting a known subrange of a text at a seam.
proof fn lemma_subrange_split(s: Seq<char>, i: int, a: Seq<char>, b: Seq<char>)
    requires
        0 <= i,
        i + a.len() + b.len() <= s.len(),
        s.subrange(i, i + a.len() + b.len()) == a + b,
    ensures
        s.subrange(i, i + a.len()) == a,
        s.subrange(i + a.len(), i + a.len() + b.len()) == b,
{
    assert forall|x: int| 0 <= x < a.len() implies s[i + x] == a[x] by {
        assert(s[i + x] == s.subrange(i, i + a.len() + b.len())[x]);
        assert((a + b)[x] == a[x]);
    }
    assert(s.subrange(i, i + a.len()) =~= a);
    assert forall|x: int| 0 <= x < b.len() implies s[i + a.len() + x] == b[x] by {
        assert(s[i + a.len() + x] == s.subrange(i, i + a.len() + b.len())[a.len() + x]);
        assert((a + b)[a.len() + x] == b[x]);
    }
    assert(s.subrange(i + a.len(), i + a.len() + b.len()) =~= b);
}

/// Values the codec reads back exactly as written: the payload has a text
/// form, and a number kept as literal text is a token that is read back as
/// that same token.
pub open spec fn wf_val(v: ValModel) -> bool
    decreases v, 0int,
{
    match v {
        ValModel::Text(_) => true,
        ValModel::Int(_) => true,
        ValModel::Real(t) => {
            &&& t.len() > 0
            &&& forall|j: int| 0 <= j < t.len() ==> is_num_char(#[trigger] t[j])
            &&& token_to_int(t) is None
        },
        ValModel::Flag(_) => true,
        ValModel::Record(ps) => wf_pairs_from(ps, 0),
        _ => false,
    }
}

/// Whether every pair from position `k` on carries a value the codec
/// reads back exactly as written.
pub open spec fn wf_pairs_from(ps: Seq<PropModel>, k: int) -> bool
    decreases ps, ps.len() - k,
{
    if k < 0 || k >= ps.len() {
        true
    } else {
        wf_val(ps[k].value) && wf_pairs_from(ps, k + 1)
    }
}

/// A record the codec reads back exactly as written.
pub open spec fn wf_record(ps: Seq<PropModel>) -> bool {
    wf_pairs_from(ps, 0)
}

/// The text of a value is never empty.
proof fn lemma_val_len(v: ValModel)
    requires
        wf_val(v),
    ensures
        json_of_val(v).len() >= 1,
{
    match v {
        ValModel::Int(n) => {
            lemma_dec_int_num_chars(n);
        },
        _ => {},
    }
}

/// Reading a truth literal at a position where one stands.
proof fn lemma_parse_bool_at(s: Seq<char>, i: int, b: bool)
    requires
        0 <= i,
        i + json_of_val(ValModel::Flag(b)).len() <= s.len(),
        s.subrange(i, i + json_of_val(ValModel::Flag(b)).len()) == json_of_val(ValModel::Flag(b)),
    ensures
        sp_bool(s, i) == Some((ValModel::Flag(b), i + json_of_val(ValModel::Flag(b)).len())),
{
    let piece = json_of_val(ValModel::Flag(b));
    assert forall|x: int| 0 <= x < piece.len() implies s[i + x] == piece[x] by {
        assert(s[i + x] == s.subrange(i, i + piece.len())[x]);
    }
    if b {
        assert(s.subrange(i, i + 4) =~= seq!['t', 'r', 'u', 'e']);
    } else {
        if i + 4 <= s.len() && s.subrange(i, i + 4) == seq!['t', 'r', 'u', 'e'] {
            assert(s.subrange(i, i + 4)[0] == 't');
            assert(s[i] == 'f');
        }
        assert(s.subrange(i, i + 5) =~= seq!['f', 'a', 'l', 's', 'e']);
    }
}

/// Reading a value at a position where its written form stands, followed
/// by a separator or the end of the text, yields exactly that value.
proof fn lemma_parse_value_at(s: Seq<char>, i: int, v: ValModel, gas: nat)
    requires
        wf_val(v),
        0 <= i,
        i + json_of_val(v).len() <= s.len(),
        s.subrange(i, i + json_of_val(v).len()) == json_of_val(v),
        i + json_of_val(v).len() < s.len() ==> !is_num_char(s[i + json_of_val(v).len()]),
        gas >= json_of_val(v).len() + 1,
    ensures
        sp_value(s, i, gas) == Some((v, i + json_of_val(v).len())),
    decreases v, 0int,
{
    let piece = json_of_val(v);
    lemma_val_len(v);
    assert(s[i] == piece[0]) by {
        assert(s[i] == s.subrange(i, i + piece.len())[0]);
    }
    match v {
        ValModel::Text(k) => {
            assert(piece[0] == '"');
            lemma_parse_string_at(s, i, k);
        },
        ValModel::Int(n) => {
            lemma_dec_int_num_chars(n);
            assert(is_num_char(piece[0]));
            if n < 0 {
                assert(piece[0] == '-');
            } else {
                lemma_dec_digits_value(n as int);
                assert(is_digit(piece[0]));
            }
            assert(s[i] != '"' && s[i] != '{' && s[i] != 't' && s[i] != 'f');
            lemma_parse_number_at(s, i, n);
        },
        ValModel::Real(t) => {
            assert(is_num_char(t[0]));
            assert(s[i] != '"' && s[i] != '{' && s[i] != 't' && s[i] != 'f');
            assert forall|j: int| i <= j < i + t.len() implies is_num_char(#[trigger] s[j]) by {
                assert(s[j] == s.subrange(i, i + t.len())[j - i]);
                assert(is_num_char(t[j - i]));
            }
            lemma_num_end_at(s, i, i + t.len());
            assert(s.subrange(i, i + t.len()) == t);
        },
        ValModel::Flag(b) => {
            assert(piece[0] == 't' || piece[0] == 'f');
            lemma_parse_bool_at(s, i, b);
        },
        ValModel::Record(ps) => {
            assert(piece[0] == '{');
            lemma_parse_record_at(s, i, ps, (gas - 1) as nat);
        },
        _ => {},
    }
}

/// Reading an object at a position where its written form stands yields
/// exactly the written record.
proof fn lemma_parse_record_at(s: Seq<char>, i: int, ps: Seq<PropModel>, gas: nat)
    requires
        wf_pairs_from(ps, 0),
        0 <= i,
        i + json_of_record(ps).len() <= s.len(),
        s.subrange(i, i + json_of_record(ps).len()) == json_of_record(ps),
        gas >= json_of_record(ps).len(),
    ensures
        sp_record(s, i, gas) == Some((ps, i + json_of_record(ps).len())),
    decreases ps, ps.len() + 2,
{
    let piece = json_of_record(ps);
    let inner = json_pairs_from(ps, 0, true);
    assert forall|x: int| 0 <= x < piece.len() implies s[i + x] == piece[x] by {
        assert(s[i + x] == s.subrange(i, i + piece.len())[x]);
    }
    assert(s[i + 0] == piece[0]);
    assert(piece[0] == '{');
    if ps.len() == 0 {
        assert(inner =~= Seq::<char>::empty());
        assert(piece =~= seq!['{', '}']);
        assert(s[i + 1] == '}');
        assert(Seq::<PropModel>::empty() =~= ps);
    } else {
        assert(wf_val(ps[0].value));
        assert(is_encodable(ps[0].value));
        assert(inner[0] == '"') by {
            assert(inner == json_pair(ps[0]) + json_pairs_from(ps, 1, false));
            assert(json_pair(ps[0])[0] == '"');
        }
        assert(s[i + 1] == piece[1] && piece[1] == inner[0]);
        assert(s[i + 1] != '}');
        let tail = inner + seq!['}'];
        assert(piece =~= seq!['{'] + tail);
        lemma_subrange_split(s, i, seq!['{'], tail);
        lemma_parse_pairs_at(s, i + 1, ps, 0, (gas - 1) as nat);
        assert(ps.skip(0) =~= ps);
    }
}

/// Reading the written pairs from position `k` on, together with the
/// closing brace, yields exactly the remaining pairs.
proof fn lemma_parse_pairs_at(s: Seq<char>, i: int, ps: Seq<PropModel>, k: int, gas: nat)
    requires
        wf_pairs_from(ps, k),
        0 <= k < ps.len(),
        0 <= i,
        i + json_pairs_from(ps, k, true).len() + 1 <= s.len(),
        s.subrange(i, i + json_pairs_from(ps, k, true).len() + 1) == json_pairs_from(ps, k, true)
            + seq!['}'],
        gas >= json_pairs_from(ps, k, true).len() + 1,
    ensures
        sp_pairs(s, i, gas) == Some((ps.skip(k), i + json_pairs_from(ps, k, true).len() + 1)),
    decreases ps, ps.len() - k,
{
    let key = ps[k].key;
    let v = ps[k].value;
    assert(wf_val(v));
    assert(is_encodable(v));
    lemma_val_len(v);
    let kpiece = json_string(key);
    let vpiece = json_of_val(v);
    let pair = json_pair(ps[k]);
    let follow = json_pairs_from(ps, k + 1, false);
    let whole = json_pairs_from(ps, k, true) + seq!['}'];
    assert(json_pairs_from(ps, k, true) == pair + follow);
    assert(pair =~= kpiece + (seq![':'] + vpiece));
    assert(whole =~= kpiece + ((seq![':'] + vpiece) + (follow + seq!['}'])));
    lemma_subrange_split(s, i, kpiece, (seq![':'] + vpiece) + (follow + seq!['}']));
    lemma_parse_string_at(s, i, key);
    let j = i + kpiece.len();
    lemma_subrange_split(s, j, seq![':'] + vpiece, follow + seq!['}']);
    lemma_subrange_split(s, j, seq![':'], vpiece);
    assert(s[j] == ':') by {
        assert(s.subrange(j, j + 1)[0] == ':');
        assert(s[j] == s.subrange(j, j + 1)[0]);
    }
    let j2 = j + 1 + vpiece.len();
    // the character after the value is a comma or the closing brace
    if k + 1 < ps.len() {
        assert(wf_pairs_from(ps, k + 1));
        assert(wf_val(ps[k + 1].value));
        assert(is_encodable(ps[k + 1].value));
        assert(follow == seq![','] + json_pairs_from(ps, k + 1, true)) by {
            assert(follow == (seq![','] + json_pair(ps[k + 1])) + json_pairs_from(ps, k + 2, false));
            assert(json_pairs_from(ps, k + 1, true) == json_pair(ps[k + 1]) + json_pairs_from(
                ps,
                k + 2,
                false,
            ));
            assert(follow =~= seq![','] + json_pairs_from(ps, k + 1, true));
        }
        let rest_whole = json_pairs_from(ps, k + 1, true) + seq!['}'];
        assert(follow + seq!['}'] =~= seq![','] + rest_whole);
        lemma_subrange_split(s, j2, seq![','], rest_whole);
        assert(s[j2] == ',') by {
            assert(s.subrange(j2, j2 + 1)[0] == ',');
            assert(s[j2] == s.subrange(j2, j2 + 1)[0]);
        }
        assert(!is_num_char(','));
        lemma_parse_value_at(s, j + 1, v, (gas - 1) as nat);
        lemma_parse_pairs_at(s, j2 + 1, ps, k + 1, (gas - 1) as nat);
        assert(seq![PropModel { key, value: v }] + ps.skip(k + 1) =~= ps.skip(k)) by {
            assert(PropModel { key, value: v } =~= ps[k]);
        }
    } else {
        assert(follow =~= Seq::<char>::empty());
        assert(follow + seq!['}'] =~= seq!['}']);
        assert(s[j2] == '}') by {
            assert(s.subrange(j2, j2 + 1)[0] == '}');
            assert(s[j2] == s.subrange(j2, j2 + 1)[0]);
        }
        assert(!is_num_char('}'));
        lemma_parse_value_at(s, j + 1, v, (gas - 1) as nat);
        assert(s[j2] != ',');
        assert(seq![PropModel { key, value: v }] =~= ps.skip(k)) by {
            assert(PropModel { key, value: v } =~= ps[k]);
        }
    }
}

/// Round-trip of the codec: a record whose values the codec can write is
/// read back from its own text exactly, whatever context the write had.
pub proof fn lemma_json_round_trip(ps: Seq<PropModel>)
    requires
        wf_record(ps),
    ensures
        spec_json_to_record(json_of_record(ps)) == Some(ps),
{
    let s = json_of_record(ps);
    assert(s.subrange(0, s.len() as int) =~= s);
    lemma_parse_record_at(s, 0, ps, s.len() as nat);
}

/// Round-trip of the record-to-text converter: writing a record the codec
/// can represent and converting the text back returns the same record,
/// whatever the old context was.
pub proof fn lemma_to_json_round_trip(old: Option<Seq<PropModel>>, m: Seq<PropModel>)
    requires
        wf_record(m),
    ensures
        <ToJson as RawConverter<Record, String>>::spec_to(&ToJson, m) matches Some(d)
            && <ToJson as RawConverter<Record, String>>::spec_from(&ToJson, old, d) == Some(m),
{
    lemma_json_round_trip(m);
}

/// A record packaged for the text codec.
#[derive(Debug)]
pub struct Record {
    pub props: Vec<Propaty>,
}

impl Record {
    pub fn new(props: Vec<Propaty>) -> (r: Record)
        ensures
            r.props == props,
    {
        Record { props }
    }
}

impl Model for Record {
    type M = Seq<PropModel>;

    open spec fn model(&self) -> Seq<PropModel> {
        rec_model(self.props)
    }
}

impl Clone for Record {
    /// A clone has the same model as the original.
    fn clone(&self) -> (r: Self)
        ensures
            r.model() == self.model(),
    {
        Record { props: clone_record(&self.props) }
    }
}

impl PartialEq for Record {
    fn eq(&self, other: &Record) -> (r: bool) {
        crate::propaty::record_eq(&self.props, &other.props)
    }
}

impl vstd::std_specs::cmp::PartialEqSpecImpl for Record {
    open spec fn obeys_eq_spec() -> bool {
        true
    }

    open spec fn eq_spec(&self, other: &Record) -> bool {
        self.model() == other.model()
    }
}

/// Packages a record for the codec; the reverse direction unwraps it.
pub struct ToRecord;

impl crate::convert::RawConverter<Vec<Propaty>, Record> for ToRecord {
    open spec fn wf(&self) -> bool {
        true
    }

    open spec fn spec_to(&self, src: Seq<PropModel>) -> Option<Seq<PropModel>> {
        Some(src)
    }

    open spec fn spec_from(&self, old: Option<Seq<PropModel>>, dist: Seq<PropModel>) -> Option<
        Seq<PropModel>,
    > {
        Some(dist)
    }

    fn to(&self, src: Vec<Propaty>) -> (r: Option<Record>) {
        Some(Record { props: src })
    }

    fn from(&self, old: Option<Vec<Propaty>>, dist: Record) -> (r: Option<Vec<Propaty>>) {
        Some(dist.props)
    }
}

pub fn to_record() -> (c: crate::convert::Converter<Vec<Propaty>, Record, ToRecord>)
    ensures
        c.wf(),
{
    crate::convert::Converter::new(ToRecord)
}

/// Unwraps a packaged record; the reverse direction packages one.
pub struct FromRecord;

impl crate::convert::RawConverter<Record, Vec<Propaty>> for FromRecord {
    open spec fn wf(&self) -> bool {
        true
    }

    open spec fn spec_to(&self, src: Seq<PropModel>) -> Option<Seq<PropModel>> {
        Some(src)
    }

    open spec fn spec_from(&self, old: Option<Seq<PropModel>>, dist: Seq<PropModel>) -> Option<
        Seq<PropModel>,
    > {
        Some(dist)
    }

    fn to(&self, src: Record) -> (r: Option<Vec<Propaty>>) {
        Some(src.props)
    }

    fn from(&self, old: Option<Record>, dist: Vec<Propaty>) -> (r: Option<Record>) {
        Some(Record { props: dist })
    }
}

pub fn from_record() -> (c: crate::convert::Converter<Record, Vec<Propaty>, FromRecord>)
    ensures
        c.wf(),
{
    crate::convert::Converter::new(FromRecord)
}

/// Writes a record as text; the reverse direction parses text back.
pub struct ToJson;

impl crate::convert::RawConverter<Record, String> for ToJson {
    open spec fn wf(&self) -> bool {
        true
    }

    open spec fn spec_to(&self, src: Seq<PropModel>) -> Option<Seq<char>> {
        Some(json_of_record(src))
    }

    open spec fn spec_from(&self, old: Option<Seq<PropModel>>, dist: Seq<char>) -> Option<
        Seq<PropModel>,
    > {
        spec_json_to_record(dist)
    }

    fn to(&self, src: Record) -> (r: Option<String>) {
        Some(record_to_json(&src.props))
    }

    fn from(&self, old: Option<Record>, dist: String) -> (r: Option<Record>) {
        match json_to_record(dist.as_str()) {
            Some(ps) => Some(Record { props: ps }),
            None => None,
        }
    }
}

/// A converter that writes a record as text and reads it back.
pub fn to_json() -> (c: crate::convert::Converter<Record, String, ToJson>)
    ensures
        c.wf(),
{
    crate::convert::Converter::new(ToJson)
}

/// Parses text into a record; the reverse direction writes the text.
pub struct FromJson;

impl crate::convert::RawConverter<String, Record> for FromJson {
    open spec fn wf(&self) -> bool {
        true
    }

    open spec fn spec_to(&self, src: Seq<char>) -> Option<Seq<PropModel>> {
        spec_json_to_record(src)
    }

    open spec fn spec_from(&self, old: Option<Seq<char>>, dist: Seq<PropModel>) -> Option<
        Seq<char>,
    > {
        Some(json_of_record(dist))
    }

    fn to(&self, src: String) -> (r: Option<Record>) {
        match json_to_record(src.as_str()) {
            Some(ps) => Some(Record { props: ps }),
            None => None,
        }
    }

    fn from(&self, old: Option<String>, dist: Record) -> (r: Option<String>) {
        Some(record_to_json(&dist.props))
    }
}

/// A converter that parses text into a record and writes it back.
pub fn from_json() -> (c: crate::convert::Converter<String, Record, FromJson>)
    ensures
        c.wf(),
{
    crate::convert::Converter::new(FromJson)
}

/// Parses a whole text as one record, with nothing left over.
pub fn json_to_record(s: &str) -> (r: Option<Vec<Propaty>>)
    ensures
        match r {
            Some(ps) => spec_json_to_record(s@) == Some(rec_model(ps)),
            None => spec_json_to_record(s@) is None,
        },
{
    let chars = string_to_chars(s);
    match p_record(&chars, 0, chars.len()) {
        Some((ps, j)) => {
            if j == chars.len() {
                Some(ps)
            } else {
                None
            }
        },
        None => None,
    }
}

} // verus!
