//! Derivation paths.
//!
//! A derivation path is written `m/44'/0'/0/0`: any number of leading `m/`
//! markers, components separated by `/`, each component a decimal number
//! optionally followed by apostrophes that mark it hardened.  A hardened
//! component carries the high bit in its numeric form.

use vstd::prelude::*;
use vstd::string::StrSliceExecFns;
use vstd::string::StringExecFns;

verus! {

/// The bit that marks a hardened path component.
pub const HARDENED_BIT: u32 = 0x8000_0000;

pub open spec fn is_dec_digit(c: char) -> bool {
    '0' <= c && c <= '9'
}

pub open spec fn digit_val(c: char) -> nat {
    (c as nat - '0' as nat) as nat
}

pub open spec fn all_digits(s: Seq<char>) -> bool {
    forall|i: int| 0 <= i < s.len() ==> is_dec_digit(#[trigger] s[i])
}

/// Value of a decimal digit string, most significant digit first.
pub open spec fn dec_val(s: Seq<char>) -> nat
    decreases s.len(),
{
    if s.len() == 0 {
        0
    } else {
        dec_val(s.drop_last()) * 10 + digit_val(s.last())
    }
}

proof fn lemma_dec_val_prefix_le(s: Seq<char>, i: int, j: int)
    requires
        0 <= i <= j <= s.len(),
    ensures
        dec_val(s.subrange(0, i)) <= dec_val(s.subrange(0, j)),
    decreases j - i,
{
    if i < j {
        lemma_dec_val_prefix_le(s, i, j - 1);
        assert(s.subrange(0, j).drop_last() =~= s.subrange(0, j - 1));
        assert(dec_val(s.subrange(0, j - 1)) <= dec_val(s.subrange(0, j - 1)) * 10)
            by (nonlinear_arith);
    }
}

/// Parses a decimal number; `None` on an empty string, a non-digit, or a
/// value that does not fit in a `u32`.
pub fn parse_u32_dec(s: &str) -> (r: Option<u32>)
    ensures
        r is Some <==> s@.len() > 0 && all_digits(s@) && dec_val(s@) <= u32::MAX,
        r is Some ==> r->0 == dec_val(s@),
{
    let n: usize = s.unicode_len();
    if n == 0 {
        return None;
    }
    let mut acc: u64 = 0;
    let mut i: usize = 0;
    while i < n
        invariant
            0 <= i <= n,
            n == s@.len(),
            all_digits(s@.subrange(0, i as int)),
            acc == dec_val(s@.subrange(0, i as int)),
            acc <= u32::MAX,
        decreases n - i,
    {
        let c = s.get_char(i);
        let cu = c as u32;
        if cu < 48 || cu > 57 {
            assert(!is_dec_digit(s@[i as int]));
            return None;
        }
        let d = (cu - 48) as u64;
        let next = acc * 10 + d;
        assert(s@.subrange(0, i + 1).drop_last() =~= s@.subrange(0, i as int));
        assert(s@.subrange(0, i + 1).last() == s@[i as int]);
        if next > 0xFFFF_FFFF {
            proof {
                lemma_dec_val_prefix_le(s@, i + 1, n as int);
                assert(s@.subrange(0, n as int) =~= s@);
            }
            return None;
        }
        assert(all_digits(s@.subrange(0, i + 1)));
        acc = next;
        i += 1;
    }
    assert(s@.subrange(0, n as int) =~= s@);
    Some(acc as u32)
}

/// Parses a decimal number; `None` on an empty string, a non-digit, or a
/// value that does not fit in a `u64`.
pub fn parse_u64_dec(s: &str) -> (r: Option<u64>)
    ensures
        r is Some <==> s@.len() > 0 && all_digits(s@) && dec_val(s@) <= u64::MAX,
        r is Some ==> r->0 == dec_val(s@),
{
    let n: usize = s.unicode_len();
    if n == 0 {
        return None;
    }
    let mut acc: u128 = 0;
    let mut i: usize = 0;
    while i < n
        invariant
            0 <= i <= n,
            n == s@.len(),
            all_digits(s@.subrange(0, i as int)),
            acc == dec_val(s@.subrange(0, i as int)),
            acc <= u64::MAX,
        decreases n - i,
    {
        let c = s.get_char(i);
        let cu = c as u32;
        if cu < 48 || cu > 57 {
            assert(!is_dec_digit(s@[i as int]));
            return None;
        }
        let d = (cu - 48) as u128;
        let next = acc * 10 + d;
        assert(s@.subrange(0, i + 1).drop_last() =~= s@.subrange(0, i as int));
        assert(s@.subrange(0, i + 1).last() == s@[i as int]);
        if next > 0xFFFF_FFFF_FFFF_FFFF {
            proof {
                lemma_dec_val_prefix_le(s@, i + 1, n as int);
                assert(s@.subrange(0, n as int) =~= s@);
            }
            return None;
        }
        assert(all_digits(s@.subrange(0, i + 1)));
        acc = next;
        i += 1;
    }
    assert(s@.subrange(0, n as int) =~= s@);
    Some(acc as u64)
}

/// Index of the first `/`, or the length of the string if there is none.
pub open spec fn idx_of_slash(s: Seq<char>) -> nat
    decreases s.len(),
{
    if s.len() == 0 {
        0
    } else if s[0] == '/' {
        0
    } else {
        1 + idx_of_slash(s.skip(1))
    }
}

proof fn lemma_idx_of_slash_le(s: Seq<char>)
    ensures
        idx_of_slash(s) <= s.len(),
    decreases s.len(),
{
    if s.len() > 0 && s[0] != '/' {
        lemma_idx_of_slash_le(s.skip(1));
    }
}

proof fn lemma_idx_of_slash_at(s: Seq<char>, k: int)
    requires
        0 <= k < s.len(),
        s[k] == '/',
        forall|j: int| 0 <= j < k ==> s[j] != '/',
    ensures
        idx_of_slash(s) == k,
    decreases s.len(),
{
    if k > 0 {
        assert(s.skip(1)[k - 1] == s[k]);
        assert(forall|j: int| 0 <= j < k - 1 ==> #[trigger] s.skip(1)[j] == s[j + 1]);
        lemma_idx_of_slash_at(s.skip(1), k - 1);
    }
}

proof fn lemma_idx_of_slash_none(s: Seq<char>)
    requires
        forall|j: int| 0 <= j < s.len() ==> s[j] != '/',
    ensures
        idx_of_slash(s) == s.len(),
    decreases s.len(),
{
    if s.len() > 0 {
        assert(forall|j: int| 0 <= j < s.len() - 1 ==> #[trigger] s.skip(1)[j] == s[j + 1]);
        lemma_idx_of_slash_none(s.skip(1));
    }
}

/// The components of a string split on `/`.  An empty string has one
/// empty component, as splitting empty text does.
pub open spec fn split_slash(s: Seq<char>) -> Seq<Seq<char>>
    decreases s.len(),
{
    let i = idx_of_slash(s);
    if i >= s.len() {
        seq![s]
    } else {
        seq![s.take(i as int)] + split_slash(s.skip(i as int + 1))
    }
}

/// A path may begin with any number of `m/` markers; they are not components.
pub open spec fn strip_leading_m(s: Seq<char>) -> Seq<char>
    decreases s.len(),
{
    if s.len() >= 2 && s[0] == 'm' && s[1] == '/' {
        strip_leading_m(s.skip(2))
    } else {
        s
    }
}

/// Number of apostrophes at the end of a component.
pub open spec fn trailing_quotes(s: Seq<char>) -> nat
    decreases s.len(),
{
    if s.len() > 0 && s.last() == '\'' {
        1 + trailing_quotes(s.drop_last())
    } else {
        0
    }
}

proof fn lemma_trailing_quotes_le(s: Seq<char>)
    ensures
        trailing_quotes(s) <= s.len(),
    decreases s.len(),
{
    if s.len() > 0 && s.last() == '\'' {
        lemma_trailing_quotes_le(s.drop_last());
    }
}

/// The digits of a component, with the hardening apostrophes removed.
pub open spec fn comp_base(s: Seq<char>) -> Seq<char> {
    s.take(s.len() - trailing_quotes(s))
}

/// A component is well formed when its digit part is a nonempty decimal
/// number that fits in a `u32`.
pub open spec fn comp_ok(s: Seq<char>) -> bool {
    &&& comp_base(s).len() > 0
    &&& all_digits(comp_base(s))
    &&& dec_val(comp_base(s)) <= u32::MAX
}

/// Numeric form of a component: its decimal value, with the high bit set
/// when at least one apostrophe marks it hardened.
pub open spec fn comp_val(s: Seq<char>) -> u32 {
    if trailing_quotes(s) > 0 {
        (dec_val(comp_base(s)) as u32) | HARDENED_BIT
    } else {
        dec_val(comp_base(s)) as u32
    }
}

/// Every component of the stripped path is well formed.
pub open spec fn path_components_ok(s: Seq<char>) -> bool {
    forall|k: int| 0 <= k < split_slash(s).len() ==> comp_ok(#[trigger] split_slash(s)[k])
}

/// The numeric components of the stripped path, in order.
pub open spec fn component_values(s: Seq<char>) -> Seq<u32> {
    split_slash(s).map_values(|c: Seq<char>| comp_val(c))
}

/// Parses one component: trailing apostrophes mark it hardened, the rest is
/// a decimal number.
fn parse_component(s: &str) -> (r: Option<u32>)
    ensures
        r is Some <==> comp_ok(s@),
        r is Some ==> r->0 == comp_val(s@),
{
    let n: usize = s.unicode_len();
    let mut e: usize = n;
    proof {
        assert(s@.subrange(0, n as int) =~= s@);
    }
    while e > 0 && s.get_char(e - 1) == '\''
        invariant
            0 <= e <= n,
            n == s@.len(),
            trailing_quotes(s@) == trailing_quotes(s@.subrange(0, e as int)) + (n - e),
        decreases e,
    {
        assert(s@.subrange(0, e as int).drop_last() =~= s@.subrange(0, e - 1));
        assert(s@.subrange(0, e as int).last() == s@[e - 1]);
        e -= 1;
    }
    proof {
        if e > 0 {
            assert(s@.subrange(0, e as int).last() == s@[e - 1 as int]);
        }
        assert(trailing_quotes(s@.subrange(0, e as int)) == 0);
        lemma_trailing_quotes_le(s@);
        assert(comp_base(s@) =~= s@.subrange(0, e as int));
    }
    let base = s.substring_char(0, e);
    match parse_u32_dec(base) {
        Some(v) => {
            if e < n {
                Some(v | HARDENED_BIT)
            } else {
                Some(v)
            }
        },
        None => None,
    }
}

/// Parses a derivation path into its numeric components.
///
/// The result is `Ok` exactly when, after any leading `m/` markers, every
/// `/`-separated component is a decimal number (with optional hardening
/// apostrophes) that fits in a `u32`; the values come back in path order,
/// hardened components with the high bit set.
pub fn parse_derivation_path(path: &str) -> (r: Result<Vec<u32>, String>)
    ensures
        r is Ok <==> path_components_ok(strip_leading_m(path@)),
        r is Ok ==> r->Ok_0@ == component_values(strip_leading_m(path@)),
{
    let n: usize = path.unicode_len();
    let mut p: usize = 0;
    proof {
        assert(path@.subrange(0, n as int) =~= path@);
    }
    while p < n && path.get_char(p) == 'm' && p + 1 < n && path.get_char(p + 1) == '/'
        invariant
            0 <= p <= n,
            n == path@.len(),
            strip_leading_m(path@) == strip_leading_m(path@.subrange(p as int, n as int)),
        decreases n - p,
    {
        proof {
            let rest = path@.subrange(p as int, n as int);
            assert(rest[0] == path@[p as int]);
            assert(rest[1] == path@[p + 1]);
            assert(rest.skip(2) =~= path@.subrange(p + 2, n as int));
        }
        p += 2;
    }
    proof {
        let rest = path@.subrange(p as int, n as int);
        if rest.len() >= 2 {
            assert(rest[0] == path@[p as int]);
            assert(rest[1] == path@[p + 1]);
        }
        assert(strip_leading_m(rest) == rest);
    }
    let ghost stripped = path@.subrange(p as int, n as int);
    let mut vals: Vec<u32> = Vec::new();
    let ghost mut done: Seq<Seq<char>> = Seq::empty();
    let mut seg_start: usize = p;
    let mut i: usize = p;
    while i < n
        invariant
            p <= seg_start <= i <= n,
            n == path@.len(),
            stripped == path@.subrange(p as int, n as int),
            strip_leading_m(path@) == stripped,
            forall|j: int| seg_start <= j < i ==> path@[j] != '/',
            split_slash(stripped) == done + split_slash(
                path@.subrange(seg_start as int, n as int),
            ),
            vals@.len() == done.len(),
            forall|k: int|
                0 <= k < done.len() ==> comp_ok(#[trigger] done[k]) && vals@[k] == comp_val(
                    done[k],
                ),
        decreases n - i,
    {
        if path.get_char(i) == '/' {
            let comp = path.substring_char(seg_start, i);
            proof {
                let tail = path@.subrange(seg_start as int, n as int);
                let k = i - seg_start;
                assert(tail[k as int] == path@[i as int]);
                assert(forall|j: int| 0 <= j < k ==> #[trigger] tail[j] == path@[seg_start + j]);
                lemma_idx_of_slash_at(tail, k as int);
                assert(tail.take(k as int) =~= path@.subrange(seg_start as int, i as int));
                assert(tail.skip(k as int + 1) =~= path@.subrange(i + 1, n as int));
            }
            match parse_component(comp) {
                Some(v) => {
                    vals.push(v);
                    proof {
                        done = done + seq![path@.subrange(seg_start as int, i as int)];
                    }
                },
                None => {
                    proof {
                        let bad = done.len() as int;
                        assert(split_slash(stripped)[bad] == comp@);
                    }
                    return Err(String::from_str("invalid component in derivation path"));
                },
            }
            seg_start = i + 1;
        }
        i += 1;
    }
    let comp = path.substring_char(seg_start, n);
    proof {
        let tail = path@.subrange(seg_start as int, n as int);
        lemma_idx_of_slash_none(tail);
        assert(tail.take(tail.len() as int) =~= tail);
        assert(comp@ =~= tail);
    }
    match parse_component(comp) {
        Some(v) => {
            vals.push(v);
            proof {
                done = done + seq![path@.subrange(seg_start as int, n as int)];
            }
            assert(vals@ =~= component_values(stripped)) by {
                assert(split_slash(stripped) =~= done);
                assert(component_values(stripped).len() == done.len());
                assert(forall|k: int|
                    0 <= k < done.len() ==> component_values(stripped)[k] == comp_val(
                        #[trigger] done[k],
                    ));
            }
            Ok(vals)
        },
        None => {
            proof {
                let bad = done.len() as int;
                assert(split_slash(stripped)[bad] == comp@);
            }
            Err(String::from_str("invalid component in derivation path"))
        },
    }
}

/// The digit character of a value below ten.
pub open spec fn digit_char_of(v: nat) -> char {
    if v == 0 {
        '0'
    } else if v == 1 {
        '1'
    } else if v == 2 {
        '2'
    } else if v == 3 {
        '3'
    } else if v == 4 {
        '4'
    } else if v == 5 {
        '5'
    } else if v == 6 {
        '6'
    } else if v == 7 {
        '7'
    } else if v == 8 {
        '8'
    } else {
        '9'
    }
}

/// Decimal rendering of a value: most significant digit first, no
/// leading zeros; zero renders as one digit.
pub open spec fn dec_str(v: nat) -> Seq<char>
    decreases v,
{
    if v < 10 {
        seq![digit_char_of(v)]
    } else {
        dec_str(v / 10).push(digit_char_of(v % 10))
    }
}

/// Appends the decimal rendering of a value.
pub fn push_dec_u32(out: &mut String, v: u32)
    ensures
        final(out)@ == old(out)@ + dec_str(v as nat),
    decreases v,
{
    proof {
        reveal_strlit("0");
        reveal_strlit("1");
        reveal_strlit("2");
        reveal_strlit("3");
        reveal_strlit("4");
        reveal_strlit("5");
        reveal_strlit("6");
        reveal_strlit("7");
        reveal_strlit("8");
        reveal_strlit("9");
    }
    if v >= 10 {
        proof {
            assert(v / 10 < v) by (nonlinear_arith)
                requires
                    v >= 10,
            ;
        }
        let ghost mid = out@;
        push_dec_u32(out, v / 10);
    }
    let d = v % 10;
    if d == 0 {
        out.append("0");
    } else if d == 1 {
        out.append("1");
    } else if d == 2 {
        out.append("2");
    } else if d == 3 {
        out.append("3");
    } else if d == 4 {
        out.append("4");
    } else if d == 5 {
        out.append("5");
    } else if d == 6 {
        out.append("6");
    } else if d == 7 {
        out.append("7");
    } else if d == 8 {
        out.append("8");
    } else {
        out.append("9");
    }
    proof {
        if v < 10 {
            assert(out@ =~= old(out)@ + dec_str(v as nat));
        } else {
            assert(out@ =~= old(out)@ + dec_str(v as nat));
        }
    }
}

/// One rendered path component: the index's digits, an apostrophe where
/// the hardened bit is set.
pub open spec fn spec_component_str(p: u32) -> Seq<char> {
    if p >= HARDENED_BIT {
        dec_str((p - HARDENED_BIT) as nat).push('\'')
    } else {
        dec_str(p as nat)
    }
}

/// The rendered components joined with slashes.
pub open spec fn spec_components_join(ps: Seq<u32>) -> Seq<char>
    decreases ps.len(),
{
    if ps.len() == 0 {
        Seq::empty()
    } else if ps.len() == 1 {
        spec_component_str(ps[0])
    } else {
        spec_components_join(ps.drop_last()) + seq!['/'] + spec_component_str(ps.last())
    }
}

/// A path rendered in the written form, hardened components marked with
/// an apostrophe.
pub open spec fn spec_path_string(ps: Seq<u32>) -> Seq<char> {
    "m/"@ + spec_components_join(ps)
}

/// Renders path components as the written form `m/44'/0'/0/0`.
#[verifier::loop_isolation(false)]
pub fn path_to_string(parts: &Vec<u32>) -> (r: String)
    ensures
        r@ == spec_path_string(parts@),
{
    proof {
        reveal_strlit("m/");
        reveal_strlit("/");
        reveal_strlit("'");
    }
    let mut out = String::from_str("m/");
    let mut i: usize = 0;
    while i < parts.len()
        invariant
            0 <= i <= parts@.len(),
            out@ == "m/"@ + spec_components_join(parts@.take(i as int)),
        decreases parts@.len() - i,
    {
        if i > 0 {
            out.append("/");
        }
        let p = parts[i];
        if p >= HARDENED_BIT {
            push_dec_u32(&mut out, p - HARDENED_BIT);
            out.append("'");
        } else {
            push_dec_u32(&mut out, p);
        }
        proof {
            let taken = parts@.take(i + 1);
            assert(taken.drop_last() =~= parts@.take(i as int));
            assert(taken.last() == parts@[i as int]);
            if i == 0 {
                assert(out@ =~= "m/"@ + spec_components_join(taken));
            } else {
                assert(out@ =~= "m/"@ + spec_components_join(taken));
            }
        }
        i += 1;
    }
    proof {
        assert(parts@.take(parts@.len() as int) =~= parts@);
    }
    out
}

/// A path rendered with raw numeric components, hardened bit included,
/// as the wire-facing handlers write it.
pub open spec fn spec_components_join_raw(ps: Seq<u32>) -> Seq<char>
    decreases ps.len(),
{
    if ps.len() == 0 {
        Seq::empty()
    } else if ps.len() == 1 {
        dec_str(ps[0] as nat)
    } else {
        spec_components_join_raw(ps.drop_last()) + seq!['/'] + dec_str(ps.last() as nat)
    }
}

/// Renders path components with their raw numeric values, `m/2147483692/0`.
#[verifier::loop_isolation(false)]
pub fn path_to_string_raw(parts: &Vec<u32>) -> (r: String)
    ensures
        r@ == "m/"@ + spec_components_join_raw(parts@),
{
    proof {
        reveal_strlit("m/");
        reveal_strlit("/");
    }
    let mut out = String::from_str("m/");
    let mut i: usize = 0;
    while i < parts.len()
        invariant
            0 <= i <= parts@.len(),
            out@ == "m/"@ + spec_components_join_raw(parts@.take(i as int)),
        decreases parts@.len() - i,
    {
        if i > 0 {
            out.append("/");
        }
        push_dec_u32(&mut out, parts[i]);
        proof {
            let taken = parts@.take(i + 1);
            assert(taken.drop_last() =~= parts@.take(i as int));
            assert(taken.last() == parts@[i as int]);
            assert(out@ =~= "m/"@ + spec_components_join_raw(taken));
        }
        i += 1;
    }
    proof {
        assert(parts@.take(parts@.len() as int) =~= parts@);
    }
    out
}

proof fn lemma_dec_str_chars(v: nat)
    ensures
        dec_str(v).len() >= 1,
        all_digits(dec_str(v)),
        dec_val(dec_str(v)) == v,
    decreases v,
{
    if v < 10 {
        assert(seq![digit_char_of(v)].drop_last() =~= Seq::<char>::empty());
        assert(dec_val(Seq::<char>::empty()) == 0);
        assert(digit_val(digit_char_of(v)) == v);
    } else {
        vstd::arithmetic::div_mod::lemma_fundamental_div_mod(v as int, 10);
        lemma_dec_str_chars(v / 10);
        let s = dec_str(v);
        assert(s.drop_last() =~= dec_str(v / 10));
        assert(s.last() == digit_char_of(v % 10));
        assert(digit_val(digit_char_of(v % 10)) == v % 10);
        assert(forall|i: int|
            0 <= i < s.len() - 1 ==> #[trigger] s[i] == dec_str(v / 10)[i]);
    }
}

proof fn lemma_component_round(p: u32)
    ensures
        spec_component_str(p).len() >= 1,
        is_dec_digit(spec_component_str(p)[0]),
        forall|i: int|
            0 <= i < spec_component_str(p).len() ==> is_dec_digit(
                #[trigger] spec_component_str(p)[i],
            ) || spec_component_str(p)[i] == '\'',
        comp_ok(spec_component_str(p)),
        comp_val(spec_component_str(p)) == p,
{
    if p >= HARDENED_BIT {
        let d = (p - HARDENED_BIT) as nat;
        lemma_dec_str_chars(d);
        let s = spec_component_str(p);
        assert(s == dec_str(d).push('\''));
        assert(s.drop_last() =~= dec_str(d));
        assert(s.last() == '\'');
        assert(is_dec_digit(dec_str(d).last()));
        assert(trailing_quotes(dec_str(d)) == 0);
        assert(trailing_quotes(s) == 1);
        assert(comp_base(s) =~= dec_str(d));
        assert(forall|i: int| 0 <= i < s.len() - 1 ==> #[trigger] s[i] == dec_str(d)[i]);
        let dd: u32 = (p - HARDENED_BIT) as u32;
        assert((dd | 0x8000_0000u32) == p) by (bit_vector)
            requires
                dd == p - 0x8000_0000u32,
                p >= 0x8000_0000u32,
        ;
        assert(d as u32 == dd);
        assert(comp_val(s) == ((d as u32) | HARDENED_BIT));
    } else {
        let s = spec_component_str(p);
        lemma_dec_str_chars(p as nat);
        assert(s == dec_str(p as nat));
        assert(is_dec_digit(s.last()));
        assert(trailing_quotes(s) == 0);
        assert(comp_base(s) =~= s);
    }
}

proof fn lemma_join_left(ps: Seq<u32>)
    requires
        ps.len() >= 2,
    ensures
        spec_components_join(ps) == spec_component_str(ps[0]) + seq!['/']
            + spec_components_join(ps.skip(1)),
    decreases ps.len(),
{
    if ps.len() == 2 {
        assert(ps.drop_last() =~= seq![ps[0]]);
        assert(ps.skip(1) =~= seq![ps[1]]);
        assert(spec_components_join(seq![ps[0]]) == spec_component_str(ps[0]));
        assert(spec_components_join(seq![ps[1]]) == spec_component_str(ps[1]));
        assert(spec_components_join(ps) =~= spec_component_str(ps[0]) + seq!['/']
            + spec_components_join(ps.skip(1)));
    } else {
        lemma_join_left(ps.drop_last());
        assert(ps.drop_last()[0] == ps[0]);
        assert(ps.skip(1).drop_last() =~= ps.drop_last().skip(1));
        assert(ps.skip(1).last() == ps.last());
        assert(ps.skip(1).len() >= 2);
        assert(spec_components_join(ps.skip(1)) == spec_components_join(ps.skip(1).drop_last())
            + seq!['/'] + spec_component_str(ps.skip(1).last()));
        assert(spec_components_join(ps) =~= spec_component_str(ps[0]) + seq!['/']
            + spec_components_join(ps.skip(1)));
    }
}

proof fn lemma_split_join(ps: Seq<u32>)
    requires
        ps.len() >= 1,
    ensures
        split_slash(spec_components_join(ps)) =~= ps.map_values(
            |p: u32| spec_component_str(p),
        ),
    decreases ps.len(),
{
    let j = spec_components_join(ps);
    let f = |p: u32| spec_component_str(p);
    if ps.len() == 1 {
        lemma_component_round(ps[0]);
        assert(forall|k: int| 0 <= k < j.len() ==> #[trigger] j[k] != '/');
        lemma_idx_of_slash_none(j);
        assert(split_slash(j) =~= seq![j]);
        assert(ps.map_values(f) =~= seq![spec_component_str(ps[0])]);
    } else {
        lemma_join_left(ps);
        let c0 = spec_component_str(ps[0]);
        let rest = spec_components_join(ps.skip(1));
        lemma_component_round(ps[0]);
        assert(forall|k: int| 0 <= k < c0.len() ==> #[trigger] j[k] == c0[k]);
        assert(forall|k: int| 0 <= k < c0.len() ==> #[trigger] j[k] != '/');
        assert(j[c0.len() as int] == '/');
        lemma_idx_of_slash_at(j, c0.len() as int);
        assert(j.take(c0.len() as int) =~= c0);
        assert(j.skip(c0.len() as int + 1) =~= rest);
        lemma_split_join(ps.skip(1));
        assert(split_slash(j) == seq![c0] + split_slash(rest));
        assert(forall|k: int|
            0 <= k < ps.len() - 1 ==> #[trigger] ps.skip(1).map_values(f)[k] == f(ps[k + 1]));
        assert(split_slash(j) =~= ps.map_values(f));
    }
}

/// Rendering and parsing are inverse: a path rendered from components
/// parses back to exactly those components, hardened bits included.
pub proof fn lemma_path_render_parse(ps: Seq<u32>)
    requires
        ps.len() >= 1,
    ensures
        path_components_ok(strip_leading_m(spec_path_string(ps))),
        component_values(strip_leading_m(spec_path_string(ps))) == ps,
{
    reveal_strlit("m/");
    let full = spec_path_string(ps);
    let j = spec_components_join(ps);
    assert("m/"@.len() == 2);
    assert(full[0] == 'm' && full[1] == '/');
    assert(full.skip(2) =~= j);
    if ps.len() == 1 {
        lemma_component_round(ps[0]);
        assert(j == spec_component_str(ps[0]));
        assert(!is_dec_digit('m'));
        assert(j[0] != 'm');
    } else {
        lemma_join_left(ps);
        lemma_component_round(ps[0]);
        assert(j[0] == spec_component_str(ps[0])[0]);
        assert(j[0] != 'm');
    }
    assert(strip_leading_m(j) == j);
    assert(strip_leading_m(full) == j);
    lemma_split_join(ps);
    let f = |p: u32| spec_component_str(p);
    assert forall|k: int| 0 <= k < split_slash(j).len() implies comp_ok(
        #[trigger] split_slash(j)[k],
    ) by {
        assert(split_slash(j)[k] == f(ps[k]));
        lemma_component_round(ps[k]);
    }
    assert forall|k: int| 0 <= k < ps.len() implies #[trigger] component_values(j)[k]
        == ps[k] by {
        assert(split_slash(j)[k] == f(ps[k]));
        lemma_component_round(ps[k]);
    }
    assert(component_values(j) =~= ps);
}

} // verus!
