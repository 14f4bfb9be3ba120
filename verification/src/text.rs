//! Character-level helpers for the strings the crawler stores and reads:
//! quote doubling, trimming, and comma-separated lists.

use vstd::prelude::*;

verus! {

/// The views of a sequence of strings, element by element.
pub open spec fn views(v: Seq<String>) -> Seq<Seq<char>> {
    v.map_values(|s: String| s@)
}

/// Appends one character to a string.
///
/// Trusted: `String::push` of std, which adds the given character at the
/// end and leaves what was there.
#[verifier::external_body]
pub(crate) fn push_char(s: &mut String, c: char)
    ensures
        final(s)@ == old(s)@.push(c),
{
    s.push(c);
}

/// The characters of a string, in order.
pub fn chars_of(s: &str) -> (v: Vec<char>)
    ensures
        v@ == s@,
{
    let mut v: Vec<char> = Vec::new();
    for c in iter: s.chars()
        invariant
            v@ == iter.history(),
            iter.seq() == s@,
    {
        v.push(c);
    }
    v
}

/// The string made of the characters `v[from..to]`.
pub fn text_of(v: &Vec<char>, from: usize, to: usize) -> (r: String)
    requires
        from <= to <= v.len(),
    ensures
        r@ == v@.subrange(from as int, to as int),
{
    let mut out = String::new();
    let mut i: usize = from;
    while i < to
        invariant
            from <= i <= to <= v.len(),
            out@ == v@.subrange(from as int, i as int),
        decreases to - i,
    {
        push_char(&mut out, v[i]);
        i += 1;
        assert(out@ =~= v@.subrange(from as int, i as int));
    }
    out
}

// ---------------------------------------------------------------------------
// Quote doubling
// ---------------------------------------------------------------------------

/// `s` with every single quote written twice.
pub open spec fn doubled(s: Seq<char>) -> Seq<char>
    decreases s.len(),
{
    if s.len() == 0 {
        Seq::empty()
    } else if s[0] == '\'' {
        seq!['\'', '\''] + doubled(s.drop_first())
    } else {
        seq![s[0]] + doubled(s.drop_first())
    }
}

/// `s` with every pair of adjacent single quotes, found from the left and
/// without overlap, replaced by one.
pub open spec fn collapsed(s: Seq<char>) -> Seq<char>
    decreases s.len(),
{
    if s.len() == 0 {
        Seq::empty()
    } else if s.len() >= 2 && s[0] == '\'' && s[1] == '\'' {
        seq!['\''] + collapsed(s.skip(2))
    } else {
        seq![s[0]] + collapsed(s.drop_first())
    }
}

/// Doubles every single quote of `s`.
pub fn escape_quotes(s: &str) -> (r: String)
    ensures
        r@ == doubled(s@),
{
    let v = chars_of(s);
    let mut out = String::new();
    let mut i: usize = 0;
    assert(out@ + doubled(v@.skip(0)) =~= doubled(v@)) by {
        assert(v@.skip(0) =~= v@);
    }
    while i < v.len()
        invariant
            i <= v.len(),
            out@ + doubled(v@.skip(i as int)) == doubled(v@),
        decreases v.len() - i,
    {
        let ghost before = out@;
        let ghost rest = v@.skip(i as int);
        assert(rest.drop_first() =~= v@.skip(i as int + 1));
        let c = v[i];
        if c == '\'' {
            push_char(&mut out, '\'');
            push_char(&mut out, '\'');
            assert(out@ + doubled(rest.drop_first()) =~= before + doubled(rest));
        } else {
            push_char(&mut out, c);
            assert(out@ + doubled(rest.drop_first()) =~= before + doubled(rest));
        }
        i += 1;
    }
    assert(out@ + doubled(v@.skip(i as int)) =~= out@);
    out
}

/// Replaces every doubled single quote of `s` by one, scanning from the left.
pub fn unescape_quotes(s: &str) -> (r: String)
    ensures
        r@ == collapsed(s@),
{
    let v = chars_of(s);
    let mut out = String::new();
    let mut i: usize = 0;
    assert(out@ + collapsed(v@.skip(0)) =~= collapsed(v@)) by {
        assert(v@.skip(0) =~= v@);
    }
    while i < v.len()
        invariant
            i <= v.len(),
            out@ + collapsed(v@.skip(i as int)) == collapsed(v@),
        decreases v.len() - i,
    {
        let ghost before = out@;
        let ghost rest = v@.skip(i as int);
        let c = v[i];
        if c == '\'' && i + 1 < v.len() && v[i + 1] == '\'' {
            assert(rest.skip(2) =~= v@.skip(i as int + 2));
            push_char(&mut out, '\'');
            assert(out@ + collapsed(rest.skip(2)) =~= before + collapsed(rest));
            i += 2;
        } else {
            assert(rest.drop_first() =~= v@.skip(i as int + 1));
            push_char(&mut out, c);
            assert(out@ + collapsed(rest.drop_first()) =~= before + collapsed(rest));
            i += 1;
        }
    }
    assert(out@ + collapsed(v@.skip(i as int)) =~= out@);
    out
}

/// Collapsing undoes doubling, for every string.
pub proof fn lemma_collapsed_doubled(s: Seq<char>)
    ensures
        collapsed(doubled(s)) == s,
    decreases s.len(),
{
    if s.len() == 0 {
    } else {
        let rest = s.drop_first();
        lemma_collapsed_doubled(rest);
        let d = doubled(s);
        if s[0] == '\'' {
            assert(d.skip(2) =~= doubled(rest));
            assert(collapsed(d) =~= seq!['\''] + rest);
        } else {
            assert(d.drop_first() =~= doubled(rest));
            assert(collapsed(d) =~= seq![s[0]] + rest);
        }
        assert(seq![s[0]] + rest =~= s);
    }
}

/// A doubled string is empty only if the string was.
pub proof fn lemma_doubled_empty(s: Seq<char>)
    ensures
        doubled(s).len() == 0 <==> s.len() == 0,
{
}

// ---------------------------------------------------------------------------
// Trimming
// ---------------------------------------------------------------------------

/// Whether `c` has the Unicode property White_Space.
pub open spec fn is_white_space(c: char) -> bool {
    let n = c as u32;
    ||| 0x09 <= n <= 0x0D
    ||| n == 0x20
    ||| n == 0x85
    ||| n == 0xA0
    ||| n == 0x1680
    ||| 0x2000 <= n <= 0x200A
    ||| n == 0x2028
    ||| n == 0x2029
    ||| n == 0x202F
    ||| n == 0x205F
    ||| n == 0x3000
}

/// Whether `c` is a white-space character.
pub fn is_space(c: char) -> (b: bool)
    ensures
        b == is_white_space(c),
{
    let n: u32 = c as u32;
    (0x09 <= n && n <= 0x0D) || n == 0x20 || n == 0x85 || n == 0xA0 || n == 0x1680 || (0x2000 <= n
        && n <= 0x200A) || n == 0x2028 || n == 0x2029 || n == 0x202F || n == 0x205F || n == 0x3000
}

/// `s` without its leading white space.
pub open spec fn trim_start(s: Seq<char>) -> Seq<char>
    decreases s.len(),
{
    if s.len() > 0 && is_white_space(s[0]) {
        trim_start(s.drop_first())
    } else {
        s
    }
}

/// `s` without its trailing white space.
pub open spec fn trim_end(s: Seq<char>) -> Seq<char>
    decreases s.len(),
{
    if s.len() > 0 && is_white_space(s.last()) {
        trim_end(s.drop_last())
    } else {
        s
    }
}

/// `s` without leading and trailing white space.
pub open spec fn trimmed(s: Seq<char>) -> Seq<char> {
    trim_end(trim_start(s))
}

/// Whether trimming leaves `s` as it is: it neither starts nor ends with
/// white space.
pub open spec fn is_trimmed(s: Seq<char>) -> bool {
    s.len() > 0 ==> !is_white_space(s[0]) && !is_white_space(s.last())
}

/// Trimming a string that is already trimmed changes nothing.
pub proof fn lemma_trimmed_fixed(s: Seq<char>)
    ensures
        is_trimmed(s) <==> trimmed(s) == s,
{
    if !is_trimmed(s) {
        lemma_trim_bounds(s);
        lemma_trim_bounds(trim_start(s));
        if is_white_space(s[0]) {
            lemma_trim_bounds(s.drop_first());
        } else {
            lemma_trim_bounds(s.drop_last());
        }
    }
}

/// Neither trim makes a string longer.
pub proof fn lemma_trim_bounds(s: Seq<char>)
    ensures
        trim_start(s).len() <= s.len(),
        trim_end(s).len() <= s.len(),
    decreases s.len(),
{
    if s.len() > 0 {
        lemma_trim_bounds(s.drop_first());
        lemma_trim_bounds(s.drop_last());
    }
}

/// Removes leading and trailing white space.
pub fn trim(s: &str) -> (r: String)
    ensures
        r@ == trimmed(s@),
{
    let v = chars_of(s);
    let mut i: usize = 0;
    assert(v@.skip(0) =~= v@);
    while i < v.len() && is_space(v[i])
        invariant
            i <= v.len(),
            trim_start(v@) == trim_start(v@.skip(i as int)),
        decreases v.len() - i,
    {
        assert(v@.skip(i as int).drop_first() =~= v@.skip(i as int + 1));
        i += 1;
    }
    let ghost t = v@.skip(i as int);
    assert(trim_start(v@) == t);
    let mut j: usize = v.len();
    assert(v@.subrange(i as int, j as int) =~= t);
    while j > i && is_space(v[j - 1])
        invariant
            i <= j <= v.len(),
            trim_end(t) == trim_end(v@.subrange(i as int, j as int)),
        decreases j - i,
    {
        assert(v@.subrange(i as int, j as int).drop_last() =~= v@.subrange(i as int, j as int - 1));
        j -= 1;
    }
    text_of(&v, i, j)
}

// ---------------------------------------------------------------------------
// Comma-separated lists
// ---------------------------------------------------------------------------

/// The index of the first comma of `s`, or its length if it has none.
pub open spec fn first_comma(s: Seq<char>) -> int
    decreases s.len(),
{
    if s.len() == 0 || s[0] == ',' {
        0
    } else {
        1 + first_comma(s.drop_first())
    }
}

/// Whether `s` holds no comma.
pub open spec fn comma_free(s: Seq<char>) -> bool {
    forall|i: int| 0 <= i < s.len() ==> s[i] != ','
}

/// `first_comma` is the one index that has a comma and none before it.
pub proof fn lemma_first_comma(s: Seq<char>, k: int)
    requires
        0 <= k <= s.len(),
        forall|i: int| 0 <= i < k ==> s[i] != ',',
        k < s.len() ==> s[k] == ',',
    ensures
        first_comma(s) == k,
    decreases s.len(),
{
    if s.len() == 0 || s[0] == ',' {
    } else {
        lemma_first_comma(s.drop_first(), k - 1);
    }
}

/// The pieces of `s` between its commas: one more than it has commas.
pub open spec fn split(s: Seq<char>) -> Seq<Seq<char>>
    decreases s.len(),
    via split_decreases
{
    let k = first_comma(s);
    if 0 <= k < s.len() {
        seq![s.take(k)] + split(s.skip(k + 1))
    } else {
        seq![s]
    }
}

#[via_fn]
proof fn split_decreases(s: Seq<char>) {
}

/// The members of `parts` with a comma between each two.
pub open spec fn joined(parts: Seq<Seq<char>>) -> Seq<char>
    decreases parts.len(),
{
    if parts.len() == 0 {
        Seq::empty()
    } else if parts.len() == 1 {
        parts[0]
    } else {
        joined(parts.drop_last()) + seq![','] + parts.last()
    }
}

/// Splits `s` at its commas.
pub fn split_commas(s: &str) -> (parts: Vec<String>)
    ensures
        views(parts@) == split(s@),
{
    let v = chars_of(s);
    let mut parts: Vec<String> = Vec::new();
    let mut cur = String::new();
    let mut i: usize = 0;
    let ghost mut start: int = 0;
    assert(v@.skip(0) =~= v@);
    assert(views(parts@) + split(v@) =~= split(v@));
    while i < v.len()
        invariant
            0 <= start <= i <= v.len(),
            cur@ == v@.subrange(start, i as int),
            forall|k: int| start <= k < i ==> v@[k] != ',',
            views(parts@) + split(v@.skip(start)) == split(v@),
        decreases v.len() - i,
    {
        let c = v[i];
        if c == ',' {
            proof {
                let rest = v@.skip(start);
                lemma_first_comma(rest, i - start);
                assert(rest.take(i - start) =~= cur@);
                assert(rest.skip(i - start + 1) =~= v@.skip(i as int + 1));
                assert(views(parts@.push(cur)) =~= views(parts@).push(cur@));
                assert(views(parts@).push(cur@) + split(v@.skip(i as int + 1)) =~= views(parts@)
                    + split(rest));
            }
            parts.push(cur);
            cur = String::new();
            proof {
                start = i as int + 1;
            }
            assert(cur@ =~= v@.subrange(start, i as int + 1));
        } else {
            push_char(&mut cur, c);
            assert(cur@ =~= v@.subrange(start, i as int + 1));
        }
        i += 1;
    }
    proof {
        let rest = v@.skip(start);
        lemma_first_comma(rest, rest.len() as int);
        assert(rest =~= cur@);
        assert(views(parts@.push(cur)) =~= views(parts@).push(cur@));
        assert(views(parts@).push(cur@) =~= views(parts@) + split(rest));
    }
    parts.push(cur);
    parts
}

/// Joins `parts` with a comma between each two.
pub fn join_commas(parts: &Vec<String>) -> (r: String)
    ensures
        r@ == joined(views(parts@)),
{
    let mut out = String::new();
    let mut i: usize = 0;
    while i < parts.len()
        invariant
            i <= parts.len(),
            out@ == joined(views(parts@).take(i as int)),
        decreases parts.len() - i,
    {
        let ghost before = views(parts@).take(i as int);
        let ghost after = views(parts@).take(i as int + 1);
        assert(after.drop_last() =~= before);
        assert(after.last() == parts@[i as int]@);
        if i > 0 {
            push_char(&mut out, ',');
        }
        out.append(parts[i].as_str());
        assert(out@ =~= joined(after));
        i += 1;
    }
    assert(views(parts@).take(i as int) =~= views(parts@));
    out
}

/// Appending a comma and a comma-free piece to a string adds that piece to
/// its split.
pub proof fn lemma_split_append(x: Seq<char>, piece: Seq<char>)
    requires
        comma_free(piece),
    ensures
        split(x + seq![','] + piece) == split(x).push(piece),
    decreases x.len(),
{
    let whole = x + seq![','] + piece;
    let k = first_comma(x);
    lemma_first_comma_bounds(x);
    if k < x.len() {
        lemma_first_comma(whole, k);
        assert(whole.take(k) =~= x.take(k));
        assert(whole.skip(k + 1) =~= x.skip(k + 1) + seq![','] + piece);
        lemma_split_append(x.skip(k + 1), piece);
        assert(split(whole) == seq![whole.take(k)] + split(whole.skip(k + 1)));
        assert(split(x) == seq![x.take(k)] + split(x.skip(k + 1)));
        assert(split(whole) =~= split(x).push(piece));
    } else {
        lemma_first_comma(whole, x.len() as int);
        assert(whole.take(x.len() as int) =~= x);
        assert(whole.skip(x.len() as int + 1) =~= piece);
        lemma_first_comma(piece, piece.len() as int);
        assert(split(piece) == seq![piece]);
        assert(split(x) == seq![x]);
        assert(split(whole) == seq![whole.take(x.len() as int)] + split(
            whole.skip(x.len() as int + 1),
        ));
        assert(split(whole) =~= split(x).push(piece));
    }
}

/// `first_comma` lies within the string, has no comma before it, and points
/// at a comma unless it is the length.
pub proof fn lemma_first_comma_bounds(s: Seq<char>)
    ensures
        0 <= first_comma(s) <= s.len(),
        forall|i: int| 0 <= i < first_comma(s) ==> s[i] != ',',
        first_comma(s) < s.len() ==> s[first_comma(s)] == ',',
    decreases s.len(),
{
    if s.len() == 0 || s[0] == ',' {
    } else {
        let rest = s.drop_first();
        lemma_first_comma_bounds(rest);
        assert forall|i: int| 0 <= i < first_comma(s) implies s[i] != ',' by {
            if i > 0 {
                assert(s[i] == rest[i - 1]);
            }
        }
    }
}

/// Splitting undoes joining, for every non-empty list of comma-free members.
pub proof fn lemma_split_joined(parts: Seq<Seq<char>>)
    requires
        parts.len() > 0,
        forall|i: int| 0 <= i < parts.len() ==> comma_free(#[trigger] parts[i]),
    ensures
        split(joined(parts)) == parts,
    decreases parts.len(),
{
    if parts.len() == 1 {
        lemma_first_comma(parts[0], parts[0].len() as int);
        assert(split(parts[0]) =~= parts);
    } else {
        let init = parts.drop_last();
        lemma_split_joined(init);
        lemma_split_append(joined(init), parts.last());
        assert(init.push(parts.last()) =~= parts);
    }
}

// ---------------------------------------------------------------------------
// Decimal numbers
// ---------------------------------------------------------------------------

/// The character of the decimal digit `d`.
pub open spec fn digit(d: int) -> char {
    if d == 0 {
        '0'
    } else if d == 1 {
        '1'
    } else if d == 2 {
        '2'
    } else if d == 3 {
        '3'
    } else if d == 4 {
        '4'
    } else if d == 5 {
        '5'
    } else if d == 6 {
        '6'
    } else if d == 7 {
        '7'
    } else if d == 8 {
        '8'
    } else {
        '9'
    }
}

/// The decimal digits of `n`, without leading zeros.
pub open spec fn decimal_nat(n: nat) -> Seq<char>
    decreases n,
{
    if n < 10 {
        seq![digit(n as int)]
    } else {
        decimal_nat(n / 10).push(digit((n % 10) as int))
    }
}

/// The decimal text of `n`, with a minus sign before a negative number.
pub open spec fn decimal(n: int) -> Seq<char> {
    if n < 0 {
        seq!['-'] + decimal_nat((-n) as nat)
    } else {
        decimal_nat(n as nat)
    }
}

/// The character of the decimal digit `d`.
pub fn digit_char(d: u64) -> (c: char)
    requires
        d < 10,
    ensures
        c == digit(d as int),
{
    if d == 0 {
        '0'
    } else if d == 1 {
        '1'
    } else if d == 2 {
        '2'
    } else if d == 3 {
        '3'
    } else if d == 4 {
        '4'
    } else if d == 5 {
        '5'
    } else if d == 6 {
        '6'
    } else if d == 7 {
        '7'
    } else if d == 8 {
        '8'
    } else {
        '9'
    }
}

/// Appends the decimal digits of `n` to `out`.
pub fn push_decimal(out: &mut String, n: u64)
    ensures
        final(out)@ == old(out)@ + decimal_nat(n as nat),
    decreases n,
{
    if n >= 10 {
        push_decimal(out, n / 10);
    }
    push_char(out, digit_char(n % 10));
    assert(out@ =~= old(out)@ + decimal_nat(n as nat));
}

/// The decimal text of `n`.
pub fn decimal_text(n: i64) -> (r: String)
    ensures
        r@ == decimal(n as int),
{
    let mut out = String::new();
    if n < 0 {
        push_char(&mut out, '-');
        let magnitude: u64 = if n == i64::MIN {
            9_223_372_036_854_775_808u64
        } else {
            (-n) as u64
        };
        push_decimal(&mut out, magnitude);
        assert(out@ =~= decimal(n as int));
    } else {
        push_decimal(&mut out, n as u64);
        assert(out@ =~= decimal(n as int));
    }
    out
}

} // verus!
