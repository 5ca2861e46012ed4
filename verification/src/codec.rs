use vstd::prelude::*;
use vstd::string::StrSliceExecFns;
use vstd::string::StringExecFns;

use crate::counts::CategoryCounts;
use crate::digits::char_digit_val;
use crate::digits::char_is_digit;
use crate::digits::dec_rep;
use crate::digits::digit_char;
use crate::digits::digit_val;
use crate::digits::is_digit;
use crate::digits::u16_to_string;

verus! {

/// The cache file's content for a set of counts: a pretty-printed JSON
/// object with one line per category, in a fixed field order.
pub open spec fn counts_json(c: CategoryCounts) -> Seq<char> {
    "{\n  \"npc_yell\": "@ + dec_rep(c.npc_yell as nat) + ",\n  \"minion\": "@ + dec_rep(
        c.minion as nat,
    ) + ",\n  \"mount\": "@ + dec_rep(c.mount as nat) + "\n}"@
}

/// Renders a set of counts as the cache file's JSON text.
pub fn serialize_counts(c: &CategoryCounts) -> (s: String)
    ensures
        s@ == counts_json(*c),
{
    let mut s = String::from_str("{\n  \"npc_yell\": ");
    let d1 = u16_to_string(c.npc_yell);
    s.append(d1.as_str());
    s.append(",\n  \"minion\": ");
    let d2 = u16_to_string(c.minion);
    s.append(d2.as_str());
    s.append(",\n  \"mount\": ");
    let d3 = u16_to_string(c.mount);
    s.append(d3.as_str());
    s.append("\n}");
    proof {
        assert(s@ =~= counts_json(*c));
    }
    s
}

/// Whether a character counts as JSON whitespace.
pub open spec fn is_ws(c: char) -> bool {
    c == ' ' || c == '\n' || c == '\t' || c == '\r'
}

/// The first position at or after `i` that does not hold whitespace.
pub open spec fn skip_ws_spec(s: Seq<char>, i: int) -> int
    decreases s.len() - i when 0 <= i <= s.len()
{
    if i < s.len() && is_ws(s[i]) {
        skip_ws_spec(s, i + 1)
    } else {
        i
    }
}

/// Whether `lit` occurs in `s` starting at position `i`.
pub open spec fn lit_at(s: Seq<char>, i: int, lit: Seq<char>) -> bool {
    0 <= i && i + lit.len() <= s.len() && s.subrange(i, i + lit.len()) == lit
}

/// Skips whitespace from `i`, then demands `lit`; the position just after it
/// on success.
pub open spec fn tok_after_ws(s: Seq<char>, i: int, lit: Seq<char>) -> Option<int> {
    let j = skip_ws_spec(s, i);
    if lit_at(s, j, lit) {
        Some(j + lit.len() as int)
    } else {
        None
    }
}

/// The first position at or after `i` that does not hold a digit.
pub open spec fn digits_end(s: Seq<char>, i: int) -> int
    decreases s.len() - i when 0 <= i <= s.len()
{
    if i < s.len() && is_digit(s[i]) {
        digits_end(s, i + 1)
    } else {
        i
    }
}

/// The value of the digit run `s[i..e]`, read left to right.
pub open spec fn digits_val(s: Seq<char>, i: int, e: int) -> nat
    decreases e - i,
{
    if i < e {
        digits_val(s, i, e - 1) * 10 + digit_val(s[e - 1])
    } else {
        0
    }
}

/// Reads an unsigned decimal at position `i`: at least one digit, no leading
/// zero, and a value that fits in sixteen bits.
pub open spec fn num_at(s: Seq<char>, i: int) -> Option<(u16, int)> {
    let e = digits_end(s, i);
    if e == i {
        None
    } else if s[i] == '0' && e > i + 1 {
        None
    } else if digits_val(s, i, e) > 65535 {
        None
    } else {
        Some((digits_val(s, i, e) as u16, e))
    }
}

/// Skips whitespace, then reads a decimal.
pub open spec fn num_after_ws(s: Seq<char>, i: int) -> Option<(u16, int)> {
    num_at(s, skip_ws_spec(s, i))
}

/// Reads one `"key": <number>` member starting at `i`.
pub open spec fn member_after(s: Seq<char>, i: int, key: Seq<char>) -> Option<(u16, int)> {
    match tok_after_ws(s, i, key) {
        None => None,
        Some(j) => match tok_after_ws(s, j, ":"@) {
            None => None,
            Some(k) => num_after_ws(s, k),
        },
    }
}

/// The decoding of a whole cache file: the three members in their fixed
/// order, with arbitrary whitespace between tokens and nothing after the
/// closing brace.
pub open spec fn parse_counts_spec(s: Seq<char>) -> Option<CategoryCounts> {
    match tok_after_ws(s, 0, "{"@) {
        None => None,
        Some(i0) => match member_after(s, i0, "\"npc_yell\""@) {
            None => None,
            Some((npc, i1)) => match tok_after_ws(s, i1, ","@) {
                None => None,
                Some(i2) => match member_after(s, i2, "\"minion\""@) {
                    None => None,
                    Some((minion, i3)) => match tok_after_ws(s, i3, ","@) {
                        None => None,
                        Some(i4) => match member_after(s, i4, "\"mount\""@) {
                            None => None,
                            Some((mount, i5)) => match tok_after_ws(s, i5, "}"@) {
                                None => None,
                                Some(i6) => if skip_ws_spec(s, i6) == s.len() {
                                    Some(CategoryCounts { npc_yell: npc, minion, mount })
                                } else {
                                    None
                                },
                            },
                        },
                    },
                },
            },
        },
    }
}

fn char_is_ws(c: char) -> (b: bool)
    ensures
        b == is_ws(c),
{
    c == ' ' || c == '\n' || c == '\t' || c == '\r'
}

fn skip_ws(s: &str, i: usize, n: usize) -> (j: usize)
    requires
        n == s@.len(),
        i <= n,
    ensures
        i <= j <= n,
        j as int == skip_ws_spec(s@, i as int),
{
    let mut j = i;
    while j < n && char_is_ws(s.get_char(j))
        invariant
            i <= j <= n,
            n == s@.len(),
            skip_ws_spec(s@, i as int) == skip_ws_spec(s@, j as int),
        decreases n - j,
    {
        j = j + 1;
    }
    j
}

fn match_lit(s: &str, i: usize, n: usize, lit: &str, m: usize) -> (b: bool)
    requires
        n == s@.len(),
        m == lit@.len(),
        i <= n,
    ensures
        b == lit_at(s@, i as int, lit@),
{
    if m > n - i {
        return false;
    }
    let mut k: usize = 0;
    while k < m
        invariant
            k <= m,
            i + m <= n,
            n == s@.len(),
            m == lit@.len(),
            forall|t: int| 0 <= t < k ==> s@[i + t] == lit@[t],
        decreases m - k,
    {
        if s.get_char(i + k) != lit.get_char(k) {
            proof {
                assert(s@.subrange(i as int, i + m) != lit@) by {
                    if s@.subrange(i as int, i + m) == lit@ {
                        assert(s@.subrange(i as int, i + m)[k as int] == s@[i + k]);
                    }
                }
            }
            return false;
        }
        k = k + 1;
    }
    proof {
        assert(s@.subrange(i as int, i + m) =~= lit@);
    }
    true
}

proof fn lemma_digits_end_run(s: Seq<char>, i: int, j: int)
    requires
        0 <= i <= j <= s.len(),
        forall|k: int| i <= k < j ==> is_digit(s[k]),
        j == s.len() || !is_digit(s[j]),
    ensures
        digits_end(s, i) == j,
    decreases j - i,
{
    if i < j {
        lemma_digits_end_run(s, i + 1, j);
    }
}

fn parse_num(s: &str, i: usize, n: usize) -> (r: Option<(u16, usize)>)
    requires
        n == s@.len(),
        i <= n,
    ensures
        r is None <==> num_at(s@, i as int) is None,
        r is Some ==> num_at(s@, i as int) == Some(((r->0).0, (r->0).1 as int)) && i <= (r->0).1 <= n,
{
    let mut j = i;
    let mut acc: u32 = 0;
    let mut over = false;
    while j < n && char_is_digit(s.get_char(j))
        invariant
            i <= j <= n,
            n == s@.len(),
            forall|k: int| i <= k < j ==> is_digit(s@[k]),
            !over ==> acc == digits_val(s@, i as int, j as int) && acc <= 65535,
            over ==> digits_val(s@, i as int, j as int) > 65535,
        decreases n - j,
    {
        let c = s.get_char(j);
        let d: u32 = char_digit_val(c);
        proof {
            assert(digits_val(s@, i as int, j + 1) == digits_val(s@, i as int, j as int) * 10
                + digit_val(s@[j as int]));
        }
        if !over {
            let next: u32 = acc * 10 + d;
            if next > 65535 {
                over = true;
            } else {
                acc = next;
            }
        }
        j = j + 1;
    }
    proof {
        lemma_digits_end_run(s@, i as int, j as int);
    }
    if j == i {
        return None;
    }
    let first = s.get_char(i);
    if first == '0' && j > i + 1 {
        return None;
    }
    if over {
        return None;
    }
    Some((acc as u16, j))
}

fn expect_tok(s: &str, i: usize, n: usize, lit: &str) -> (r: Option<usize>)
    requires
        n == s@.len(),
        i <= n,
    ensures
        r is None <==> tok_after_ws(s@, i as int, lit@) is None,
        r is Some ==> tok_after_ws(s@, i as int, lit@) == Some(r->0 as int) && r->0 <= n,
{
    let j = skip_ws(s, i, n);
    let m = lit.unicode_len();
    if match_lit(s, j, n, lit, m) {
        Some(j + m)
    } else {
        None
    }
}

fn parse_member(s: &str, i: usize, n: usize, key: &str) -> (r: Option<(u16, usize)>)
    requires
        n == s@.len(),
        i <= n,
    ensures
        r is None <==> member_after(s@, i as int, key@) is None,
        r is Some ==> member_after(s@, i as int, key@) == Some(((r->0).0, (r->0).1 as int)) && (r->0).1
            <= n,
{
    match expect_tok(s, i, n, key) {
        None => None,
        Some(j) => match expect_tok(s, j, n, ":") {
            None => None,
            Some(k) => {
                let j2 = skip_ws(s, k, n);
                parse_num(s, j2, n)
            },
        },
    }
}

/// Decodes the cache file's text back into counts; `None` on any text that
/// `parse_counts_spec` refuses.
pub fn parse_counts(s: &str) -> (r: Option<CategoryCounts>)
    ensures
        r == parse_counts_spec(s@),
{
    let n = s.unicode_len();
    match expect_tok(s, 0, n, "{") {
        None => None,
        Some(i0) => match parse_member(s, i0, n, "\"npc_yell\"") {
            None => None,
            Some((npc, i1)) => match expect_tok(s, i1, n, ",") {
                None => None,
                Some(i2) => match parse_member(s, i2, n, "\"minion\"") {
                    None => None,
                    Some((minion, i3)) => match expect_tok(s, i3, n, ",") {
                        None => None,
                        Some(i4) => match parse_member(s, i4, n, "\"mount\"") {
                            None => None,
                            Some((mount, i5)) => match expect_tok(s, i5, n, "}") {
                                None => None,
                                Some(i6) => {
                                    let j = skip_ws(s, i6, n);
                                    if j == n {
                                        Some(CategoryCounts { npc_yell: npc, minion, mount })
                                    } else {
                                        None
                                    }
                                },
                            },
                        },
                    },
                },
            },
        },
    }
}

proof fn lemma_skip_ws_run(s: Seq<char>, i: int, j: int)
    requires
        0 <= i <= j <= s.len(),
        forall|k: int| i <= k < j ==> is_ws(s[k]),
        j == s.len() || !is_ws(s[j]),
    ensures
        skip_ws_spec(s, i) == j,
    decreases j - i,
{
    if i < j {
        lemma_skip_ws_run(s, i + 1, j);
    }
}

proof fn lemma_digits_val_of_rep(s: Seq<char>, i: int, n: nat)
    requires
        0 <= i,
        i + dec_rep(n).len() <= s.len(),
        s.subrange(i, i + dec_rep(n).len() as int) == dec_rep(n),
    ensures
        digits_val(s, i, i + dec_rep(n).len() as int) == n,
    decreases n,
{
    if n < 10 {
        crate::digits::lemma_digit_char_val(n);
        assert(s[i] == dec_rep(n)[0]);
        assert(digits_val(s, i, i) == 0);
        assert(digits_val(s, i, i + 1) == digits_val(s, i, i) * 10 + digit_val(s[i]));
    } else {
        let pre = dec_rep(n / 10);
        let l = pre.len() as int;
        assert forall|t: int| 0 <= t < l implies s.subrange(i, i + l)[t] == pre[t] by {
            assert(s[i + t] == s.subrange(i, i + dec_rep(n).len() as int)[t]);
            assert(dec_rep(n)[t] == pre[t]);
        }
        assert(s.subrange(i, i + l) =~= pre);
        lemma_digits_val_of_rep(s, i, n / 10);
        crate::digits::lemma_digit_char_val(n % 10);
        assert(s[i + l] == dec_rep(n)[l]);
        assert(dec_rep(n)[l] == digit_char(n % 10));
        assert(dec_rep(n).len() == l + 1);
        assert(digits_val(s, i, i + l + 1) == digits_val(s, i, i + l) * 10 + digit_val(s[i + l]));
        vstd::arithmetic::div_mod::lemma_fundamental_div_mod(n as int, 10);
    }
}

proof fn lemma_num_at_rep(s: Seq<char>, i: int, n: nat)
    requires
        0 <= i,
        n <= 65535,
        i + dec_rep(n).len() <= s.len(),
        s.subrange(i, i + dec_rep(n).len() as int) == dec_rep(n),
        i + dec_rep(n).len() == s.len() || !is_digit(s[i + dec_rep(n).len()]),
    ensures
        num_at(s, i) == Some((n as u16, i + dec_rep(n).len() as int)),
{
    let e = i + dec_rep(n).len() as int;
    crate::digits::lemma_dec_rep_digits(n);
    assert forall|k: int| i <= k < e implies is_digit(s[k]) by {
        assert(s[k] == s.subrange(i, e)[k - i]);
    }
    lemma_digits_end_run(s, i, e);
    lemma_digits_val_of_rep(s, i, n);
    assert(s[i] == dec_rep(n)[0]);
}

/// Round trip: the text that `counts_json` gives for any set of counts
/// decodes back to exactly those counts.
#[verifier::rlimit(100)]
pub proof fn lemma_parse_counts_json(c: CategoryCounts)
    ensures
        parse_counts_spec(counts_json(c)) == Some(c),
{
    let s = counts_json(c);
    let a = c.npc_yell as nat;
    let b = c.minion as nat;
    let m = c.mount as nat;
    let da = dec_rep(a);
    let db = dec_rep(b);
    let dm = dec_rep(m);
    let la = da.len() as int;
    let lb = db.len() as int;
    let lm = dm.len() as int;
    reveal_strlit("{\n  \"npc_yell\": ");
    reveal_strlit(",\n  \"minion\": ");
    reveal_strlit(",\n  \"mount\": ");
    reveal_strlit("\n}");
    reveal_strlit("{");
    reveal_strlit("\"npc_yell\"");
    reveal_strlit("\"minion\"");
    reveal_strlit("\"mount\"");
    reveal_strlit(":");
    reveal_strlit(",");
    reveal_strlit("}");
    crate::digits::lemma_dec_rep_digits(a);
    crate::digits::lemma_dec_rep_digits(b);
    crate::digits::lemma_dec_rep_digits(m);
    assert(s.len() == 45 + la + lb + lm);

    // opening brace
    assert(s[0] == '{');
    lemma_skip_ws_run(s, 0, 0);
    assert(s.subrange(0, 1) =~= "{"@);
    assert(tok_after_ws(s, 0, "{"@) == Some(1int));

    // "npc_yell": <a>
    assert(is_ws(s[1]) && is_ws(s[2]) && is_ws(s[3]));
    assert(s[4] == '"');
    lemma_skip_ws_run(s, 1, 4);
    assert(s.subrange(4, 14) =~= "\"npc_yell\""@);
    assert(tok_after_ws(s, 1, "\"npc_yell\""@) == Some(14int));
    assert(s[14] == ':');
    lemma_skip_ws_run(s, 14, 14);
    assert(s.subrange(14, 15) =~= ":"@);
    assert(tok_after_ws(s, 14, ":"@) == Some(15int));
    assert(is_ws(s[15]));
    assert(s[16] == da[0] && is_digit(da[0]));
    lemma_skip_ws_run(s, 15, 16);
    assert(s.subrange(16, 16 + la) =~= da);
    assert(s[16 + la] == ',' && !is_digit(s[16 + la]));
    lemma_num_at_rep(s, 16, a);
    assert(num_after_ws(s, 15) == Some((c.npc_yell, 16 + la)));
    assert(member_after(s, 1, "\"npc_yell\""@) == Some((c.npc_yell, 16 + la)));

    // comma
    lemma_skip_ws_run(s, 16 + la, 16 + la);
    assert(s.subrange(16 + la, 17 + la) =~= ","@);
    assert(tok_after_ws(s, 16 + la, ","@) == Some(17 + la));

    // "minion": <b>
    assert(is_ws(s[17 + la]) && is_ws(s[18 + la]) && is_ws(s[19 + la]));
    assert(s[20 + la] == '"');
    lemma_skip_ws_run(s, 17 + la, 20 + la);
    assert(s.subrange(20 + la, 28 + la) =~= "\"minion\""@);
    assert(tok_after_ws(s, 17 + la, "\"minion\""@) == Some(28 + la));
    assert(s[28 + la] == ':');
    lemma_skip_ws_run(s, 28 + la, 28 + la);
    assert(s.subrange(28 + la, 29 + la) =~= ":"@);
    assert(tok_after_ws(s, 28 + la, ":"@) == Some(29 + la));
    assert(is_ws(s[29 + la]));
    assert(s[30 + la] == db[0] && is_digit(db[0]));
    lemma_skip_ws_run(s, 29 + la, 30 + la);
    assert(s.subrange(30 + la, 30 + la + lb) =~= db);
    assert(s[30 + la + lb] == ',' && !is_digit(s[30 + la + lb]));
    lemma_num_at_rep(s, 30 + la, b);
    assert(num_after_ws(s, 29 + la) == Some((c.minion, 30 + la + lb)));
    assert(member_after(s, 17 + la, "\"minion\""@) == Some((c.minion, 30 + la + lb)));

    // comma
    lemma_skip_ws_run(s, 30 + la + lb, 30 + la + lb);
    assert(s.subrange(30 + la + lb, 31 + la + lb) =~= ","@);
    assert(tok_after_ws(s, 30 + la + lb, ","@) == Some(31 + la + lb));

    // "mount": <m>
    assert(is_ws(s[31 + la + lb]) && is_ws(s[32 + la + lb]) && is_ws(s[33 + la + lb]));
    assert(s[34 + la + lb] == '"');
    lemma_skip_ws_run(s, 31 + la + lb, 34 + la + lb);
    assert(s.subrange(34 + la + lb, 41 + la + lb) =~= "\"mount\""@);
    assert(tok_after_ws(s, 31 + la + lb, "\"mount\""@) == Some(41 + la + lb));
    assert(s[41 + la + lb] == ':');
    lemma_skip_ws_run(s, 41 + la + lb, 41 + la + lb);
    assert(s.subrange(41 + la + lb, 42 + la + lb) =~= ":"@);
    assert(tok_after_ws(s, 41 + la + lb, ":"@) == Some(42 + la + lb));
    assert(is_ws(s[42 + la + lb]));
    assert(s[43 + la + lb] == dm[0] && is_digit(dm[0]));
    lemma_skip_ws_run(s, 42 + la + lb, 43 + la + lb);
    assert(s.subrange(43 + la + lb, 43 + la + lb + lm) =~= dm);
    assert(s[43 + la + lb + lm] == '\n' && !is_digit(s[43 + la + lb + lm]));
    lemma_num_at_rep(s, 43 + la + lb, m);
    assert(num_after_ws(s, 42 + la + lb) == Some((c.mount, 43 + la + lb + lm)));
    assert(member_after(s, 31 + la + lb, "\"mount\""@) == Some((c.mount, 43 + la + lb + lm)));

    // closing brace and end of text
    assert(is_ws(s[43 + la + lb + lm]));
    assert(s[44 + la + lb + lm] == '}');
    lemma_skip_ws_run(s, 43 + la + lb + lm, 44 + la + lb + lm);
    assert(s.subrange(44 + la + lb + lm, 45 + la + lb + lm) =~= "}"@);
    assert(tok_after_ws(s, 43 + la + lb + lm, "}"@) == Some(45 + la + lb + lm));
    assert(skip_ws_spec(s, 45 + la + lb + lm) == s.len());
    assert(parse_counts_spec(s) == Some(CategoryCounts { npc_yell: c.npc_yell, minion: c.minion, mount: c.mount }));
}

} // verus!
