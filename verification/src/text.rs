//! Character-level text helpers: Unicode whitespace, trimming, splitting and joining.

use vstd::prelude::*;

verus! {

/// Unicode `White_Space` characters, the set that `char::is_whitespace` accepts.
pub open spec fn is_ws(c: char) -> bool {
    ||| ('\u{9}' <= c && c <= '\u{d}')
    ||| c == ' '
    ||| c == '\u{85}'
    ||| c == '\u{a0}'
    ||| c == '\u{1680}'
    ||| ('\u{2000}' <= c && c <= '\u{200a}')
    ||| c == '\u{2028}'
    ||| c == '\u{2029}'
    ||| c == '\u{202f}'
    ||| c == '\u{205f}'
    ||| c == '\u{3000}'
}

/// Whether `c` is Unicode whitespace.
pub fn is_whitespace(c: char) -> (r: bool)
    ensures
        r == is_ws(c),
{
    ('\u{9}' <= c && c <= '\u{d}') || c == ' ' || c == '\u{85}' || c == '\u{a0}' || c
        == '\u{1680}' || ('\u{2000}' <= c && c <= '\u{200a}') || c == '\u{2028}' || c
        == '\u{2029}' || c == '\u{202f}' || c == '\u{205f}' || c == '\u{3000}'
}

/// `s` without its leading whitespace.
pub open spec fn trim_start(s: Seq<char>) -> Seq<char>
    decreases s.len(),
{
    if s.len() > 0 && is_ws(s[0]) {
        trim_start(s.drop_first())
    } else {
        s
    }
}

/// `s` without its trailing whitespace.
pub open spec fn trim_end(s: Seq<char>) -> Seq<char>
    decreases s.len(),
{
    if s.len() > 0 && is_ws(s.last()) {
        trim_end(s.drop_last())
    } else {
        s
    }
}

/// `s` without whitespace at either end, as `str::trim` gives it.
pub open spec fn trim(s: Seq<char>) -> Seq<char> {
    trim_end(trim_start(s))
}

/// The characters of `s`, one by one.
pub fn chars_of(s: &str) -> (v: Vec<char>)
    ensures
        v@ == s@,
{
    let mut v: Vec<char> = Vec::new();
    for c in it: s.chars()
        invariant
            it.seq() == s@,
            v@ == s@.take(it.index() as int),
    {
        v.push(c);
    }
    v
}


/// Whether `c` is a path separator that output folders may end with.
pub open spec fn is_path_sep(c: char) -> bool {
    c == '/' || c == '\\'
}

/// `s` without the path separators (`/` or `\`) it ends with.
pub open spec fn trim_trailing_seps(s: Seq<char>) -> Seq<char>
    decreases s.len(),
{
    if s.len() > 0 && is_path_sep(s.last()) {
        trim_trailing_seps(s.drop_last())
    } else {
        s
    }
}

/// The text of `s` without whitespace at either end.
pub fn trim_str(s: &str) -> (r: &str)
    ensures
        r@ == trim(s@),
{
    let cs = chars_of(s);
    let n = cs.len();
    let mut i: usize = 0;
    assert(s@.subrange(0, n as int) =~= s@);
    while i < n && is_whitespace(cs[i])
        invariant
            i <= n,
            n == s@.len(),
            cs@ == s@,
            trim_start(s@.subrange(i as int, n as int)) == trim_start(s@),
        decreases n - i,
    {
        assert(s@.subrange(i as int, n as int).drop_first() =~= s@.subrange(i + 1, n as int));
        i = i + 1;
    }
    assert(s@.subrange(i as int, n as int) =~= s@.subrange(i as int, n as int));
    if i < n {
        assert(s@.subrange(i as int, n as int)[0] == cs@[i as int]);
    }
    assert(trim_start(s@) == s@.subrange(i as int, n as int));
    let mut j: usize = n;
    while j > i && is_whitespace(cs[j - 1])
        invariant
            i <= j <= n,
            n == s@.len(),
            cs@ == s@,
            trim_start(s@) == s@.subrange(i as int, n as int),
            trim_end(s@.subrange(i as int, j as int)) == trim(s@),
        decreases j,
    {
        assert(s@.subrange(i as int, j as int).drop_last() =~= s@.subrange(i as int, j - 1));
        j = j - 1;
    }
    if j > i {
        assert(s@.subrange(i as int, j as int).last() == cs@[j - 1]);
    }
    s.substring_char(i, j)
}

/// The text of `s` without the `/` and `\` characters it ends with.
pub fn trim_trailing_separators(s: &str) -> (r: &str)
    ensures
        r@ == trim_trailing_seps(s@),
{
    let cs = chars_of(s);
    let n = cs.len();
    let mut j: usize = n;
    assert(s@.subrange(0, n as int) =~= s@);
    while j > 0 && (cs[j - 1] == '/' || cs[j - 1] == '\\')
        invariant
            j <= n,
            n == s@.len(),
            cs@ == s@,
            trim_trailing_seps(s@.subrange(0, j as int)) == trim_trailing_seps(s@),
        decreases j,
    {
        assert(s@.subrange(0, j as int).drop_last() =~= s@.subrange(0, j - 1));
        j = j - 1;
    }
    assert(s@.subrange(0, n as int) =~= s@);
    if j > 0 {
        assert(s@.subrange(0, j as int).last() == cs@[j - 1]);
    }
    s.substring_char(0, j)
}


/// Scanning `s` left to right: the whitespace-separated tokens already closed,
/// and the token still being read.
pub open spec fn ws_scan(s: Seq<char>) -> (Seq<Seq<char>>, Seq<char>)
    decreases s.len(),
{
    if s.len() == 0 {
        (seq![], seq![])
    } else {
        let (done, cur) = ws_scan(s.drop_last());
        if is_ws(s.last()) {
            if cur.len() > 0 {
                (done.push(cur), seq![])
            } else {
                (done, seq![])
            }
        } else {
            (done, cur.push(s.last()))
        }
    }
}

/// The maximal runs of non-whitespace characters of `s`, in order, as
/// `str::split_whitespace` yields them.
pub open spec fn ws_tokens(s: Seq<char>) -> Seq<Seq<char>> {
    let (done, cur) = ws_scan(s);
    if cur.len() > 0 {
        done.push(cur)
    } else {
        done
    }
}

/// The whitespace-separated tokens of `s`.
pub fn split_whitespace(s: &str) -> (r: Vec<String>)
    ensures
        r.deep_view() == ws_tokens(s@),
{
    let cs = chars_of(s);
    let n = cs.len();
    let mut tokens: Vec<String> = Vec::new();
    let mut start: usize = 0;
    let mut i: usize = 0;
    assert(s@.take(0) =~= seq![]);
    while i < n
        invariant
            start <= i <= n,
            n == s@.len(),
            cs@ == s@,
            tokens.deep_view() == ws_scan(s@.take(i as int)).0,
            ws_scan(s@.take(i as int)).1 == s@.subrange(start as int, i as int),
        decreases n - i,
    {
        let ghost prev = s@.take(i as int);
        assert(s@.take(i + 1).drop_last() =~= prev);
        assert(s@.take(i + 1).last() == cs@[i as int]);
        if is_whitespace(cs[i]) {
            if start < i {
                let tok = s.substring_char(start, i).to_owned();
                let ghost before = tokens.deep_view();
                tokens.push(tok);
                assert(tokens.deep_view() =~= before.push(tok@));
            }
            start = i + 1;
        } else {
            assert(s@.subrange(start as int, i + 1) =~= s@.subrange(start as int, i as int).push(
                cs@[i as int],
            ));
        }
        i = i + 1;
    }
    assert(s@.take(n as int) =~= s@);
    if start < n {
        let tok = s.substring_char(start, n).to_owned();
        let ghost before = tokens.deep_view();
        tokens.push(tok);
        assert(tokens.deep_view() =~= before.push(tok@));
    }
    tokens
}

/// `parts` joined with `sep` between neighbours, as `[String]::join` gives it.
pub open spec fn join(parts: Seq<Seq<char>>, sep: Seq<char>) -> Seq<char>
    decreases parts.len(),
{
    if parts.len() == 0 {
        seq![]
    } else if parts.len() == 1 {
        parts[0]
    } else {
        join(parts.drop_last(), sep) + sep + parts.last()
    }
}

/// The strings of `parts` joined with `sep` between neighbours.
pub fn join_strings(parts: &Vec<String>, sep: &str) -> (r: String)
    ensures
        r@ == join(parts.deep_view(), sep@),
{
    let mut r = String::new();
    let n = parts.len();
    let ghost dv = parts.deep_view();
    let mut i: usize = 0;
    while i < n
        invariant
            i <= n,
            n == parts.len(),
            dv == parts.deep_view(),
            r@ == join(dv.take(i as int), sep@),
        decreases n - i,
    {
        assert(dv.take(i + 1).drop_last() =~= dv.take(i as int));
        assert(dv.take(i + 1).last() == parts[i as int]@);
        if i > 0 {
            r.append(sep);
        } else {
            assert(r@ =~= seq![]);
        }
        r.append(parts[i].as_str());
        i = i + 1;
    }
    assert(dv.take(n as int) =~= dv);
    r
}

/// The decimal digit character for `d`.
pub open spec fn digit_char(d: nat) -> char {
    if d == 0 {
        '0'
    } else if d == 1 {
        '1'
    } else if d == 2 {
        '2'
    } else if d == 3 {
        '3'
    } else if d == 4 {
        '4'
    } else if d == 5 {
        '5'
    } else if d == 6 {
        '6'
    } else if d == 7 {
        '7'
    } else if d == 8 {
        '8'
    } else {
        '9'
    }
}

/// The decimal notation of `n`, without sign or leading zeros, as `Display` writes it.
pub open spec fn decimal(n: nat) -> Seq<char>
    decreases n,
{
    if n < 10 {
        seq![digit_char(n)]
    } else {
        decimal(n / 10).push(digit_char(n % 10))
    }
}

fn digit_str(d: u64) -> (r: &'static str)
    requires
        d < 10,
    ensures
        r@ == seq![digit_char(d as nat)],
{
    if d == 0 {
        proof {
            reveal_strlit("0");
        }
        "0"
    } else if d == 1 {
        proof {
            reveal_strlit("1");
        }
        "1"
    } else if d == 2 {
        proof {
            reveal_strlit("2");
        }
        "2"
    } else if d == 3 {
        proof {
            reveal_strlit("3");
        }
        "3"
    } else if d == 4 {
        proof {
            reveal_strlit("4");
        }
        "4"
    } else if d == 5 {
        proof {
            reveal_strlit("5");
        }
        "5"
    } else if d == 6 {
        proof {
            reveal_strlit("6");
        }
        "6"
    } else if d == 7 {
        proof {
            reveal_strlit("7");
        }
        "7"
    } else if d == 8 {
        proof {
            reveal_strlit("8");
        }
        "8"
    } else {
        proof {
            reveal_strlit("9");
        }
        "9"
    }
}

/// Appends the decimal notation of `n` to `out`.
pub fn push_decimal(out: &mut String, n: u64)
    ensures
        final(out)@ == old(out)@ + decimal(n as nat),
    decreases n,
{
    if n >= 10 {
        push_decimal(out, n / 10);
    }
    out.append(digit_str(n % 10));
}

/// The decimal notation of `n`.
pub fn decimal_string(n: u64) -> (r: String)
    ensures
        r@ == decimal(n as nat),
{
    let mut r = String::new();
    push_decimal(&mut r, n);
    assert(r@ =~= decimal(n as nat));
    r
}


/// Whether `s` holds no whitespace character.
pub open spec fn no_ws(s: Seq<char>) -> bool {
    forall|i: int| 0 <= i < s.len() ==> !is_ws(#[trigger] s[i])
}

proof fn lemma_trim_start_suffix(s: Seq<char>)
    ensures
        trim_start(s) == s.skip(s.len() - trim_start(s).len()),
        trim_start(s).len() <= s.len(),
        trim_start(s).len() > 0 ==> !is_ws(trim_start(s)[0]),
    decreases s.len(),
{
    if s.len() > 0 && is_ws(s[0]) {
        lemma_trim_start_suffix(s.drop_first());
        assert(s.drop_first().skip(s.drop_first().len() - trim_start(s).len()) =~= s.skip(
            s.len() - trim_start(s).len(),
        ));
    } else {
        assert(s.skip(0) =~= s);
    }
}

proof fn lemma_trim_end_prefix(s: Seq<char>)
    ensures
        trim_end(s) == s.take(trim_end(s).len() as int),
        trim_end(s).len() <= s.len(),
        trim_end(s).len() > 0 ==> !is_ws(trim_end(s).last()),
    decreases s.len(),
{
    if s.len() > 0 && is_ws(s.last()) {
        lemma_trim_end_prefix(s.drop_last());
        assert(s.drop_last().take(trim_end(s).len() as int) =~= s.take(trim_end(s).len() as int));
    } else {
        assert(s.take(s.len() as int) =~= s);
    }
}

/// Trimming leaves no whitespace at either end, and it keeps a contiguous part of
/// the text.
pub proof fn lemma_trim_ends(s: Seq<char>)
    ensures
        trim(s).len() > 0 ==> !is_ws(trim(s)[0]) && !is_ws(trim(s).last()),
        exists|i: int, j: int| 0 <= i <= j <= s.len() && trim(s) == s.subrange(i, j),
{
    let t = trim_start(s);
    lemma_trim_start_suffix(s);
    lemma_trim_end_prefix(t);
    let k = s.len() - t.len();
    let m = trim(s).len();
    assert(trim(s) == s.subrange(k, k + m)) by {
        assert(t.take(m as int) =~= s.subrange(k, k + m));
    }
    if m > 0 {
        assert(trim(s)[0] == t[0]);
    }
}

/// Trimming twice is trimming once.
pub proof fn lemma_trim_idempotent(s: Seq<char>)
    ensures
        trim(trim(s)) == trim(s),
{
    lemma_trim_ends(s);
    let u = trim(s);
    if u.len() > 0 {
        assert(trim_start(u) == u);
        assert(trim_end(u) == u);
    } else {
        assert(trim_start(u) == u);
    }
}

proof fn lemma_ws_scan_tokens(s: Seq<char>)
    ensures
        forall|k: int|
            0 <= k < ws_scan(s).0.len() ==> (#[trigger] ws_scan(s).0[k]).len() > 0 && no_ws(
                ws_scan(s).0[k],
            ),
        no_ws(ws_scan(s).1),
    decreases s.len(),
{
    if s.len() > 0 {
        lemma_ws_scan_tokens(s.drop_last());
        let (done, cur) = ws_scan(s.drop_last());
        if !is_ws(s.last()) {
            assert forall|i: int| 0 <= i < cur.push(s.last()).len() implies !is_ws(
                #[trigger] cur.push(s.last())[i],
            ) by {
                if i < cur.len() {
                    assert(cur.push(s.last())[i] == cur[i]);
                }
            }
        }
    }
}

/// Every whitespace-separated token is non-empty and holds no whitespace.
pub proof fn lemma_ws_tokens_well_formed(s: Seq<char>)
    ensures
        forall|k: int|
            0 <= k < ws_tokens(s).len() ==> (#[trigger] ws_tokens(s)[k]).len() > 0 && no_ws(
                ws_tokens(s)[k],
            ),
{
    lemma_ws_scan_tokens(s);
}


proof fn lemma_trim_start_ws_prefix(s: Seq<char>)
    ensures
        forall|i: int| 0 <= i < s.len() - trim_start(s).len() ==> is_ws(#[trigger] s[i]),
    decreases s.len(),
{
    if s.len() > 0 && is_ws(s[0]) {
        lemma_trim_start_ws_prefix(s.drop_first());
        assert forall|i: int| 0 <= i < s.len() - trim_start(s).len() implies is_ws(
            #[trigger] s[i],
        ) by {
            if i > 0 {
                assert(s[i] == s.drop_first()[i - 1]);
            }
        }
    }
}

proof fn lemma_trim_end_empty(t: Seq<char>)
    requires
        trim_end(t).len() == 0,
    ensures
        forall|i: int| 0 <= i < t.len() ==> is_ws(#[trigger] t[i]),
    decreases t.len(),
{
    if t.len() > 0 {
        lemma_trim_end_empty(t.drop_last());
        assert forall|i: int| 0 <= i < t.len() implies is_ws(#[trigger] t[i]) by {
            if i < t.len() - 1 {
                assert(t[i] == t.drop_last()[i]);
            }
        }
    }
}

/// A text that trims to nothing is whitespace throughout.
pub proof fn lemma_blank_is_all_ws(s: Seq<char>)
    requires
        trim(s).len() == 0,
    ensures
        forall|i: int| 0 <= i < s.len() ==> is_ws(#[trigger] s[i]),
{
    let t = trim_start(s);
    lemma_trim_start_suffix(s);
    lemma_trim_start_ws_prefix(s);
    lemma_trim_end_empty(t);
    let k = s.len() - t.len();
    assert forall|i: int| 0 <= i < s.len() implies is_ws(#[trigger] s[i]) by {
        if i >= k {
            assert(s[i] == t[i - k]);
        }
    }
}

proof fn lemma_ws_scan_all_ws(s: Seq<char>)
    requires
        forall|i: int| 0 <= i < s.len() ==> is_ws(#[trigger] s[i]),
    ensures
        ws_scan(s).0 == Seq::<Seq<char>>::empty(),
        ws_scan(s).1 == Seq::<char>::empty(),
    decreases s.len(),
{
    if s.len() > 0 {
        assert forall|i: int| 0 <= i < s.drop_last().len() implies is_ws(
            #[trigger] s.drop_last()[i],
        ) by {
            assert(s.drop_last()[i] == s[i]);
        }
        lemma_ws_scan_all_ws(s.drop_last());
        assert(is_ws(s[s.len() - 1]));
    }
}

/// A blank text (nothing but whitespace) has no tokens.
pub proof fn lemma_blank_has_no_tokens(s: Seq<char>)
    requires
        trim(s).len() == 0,
    ensures
        ws_tokens(s) == Seq::<Seq<char>>::empty(),
{
    lemma_blank_is_all_ws(s);
    lemma_ws_scan_all_ws(s);
}


/// Whether `s` holds no `c`.
pub open spec fn lacks(s: Seq<char>, c: char) -> bool {
    forall|i: int| 0 <= i < s.len() ==> #[trigger] s[i] != c
}

/// The pieces of `s` between occurrences of `sep`, as `str::split` yields them
/// (one piece more than there are separators).
pub open spec fn split_on(s: Seq<char>, sep: char) -> Seq<Seq<char>>
    decreases s.len(),
{
    if s.len() == 0 {
        seq![seq![]]
    } else {
        let p = split_on(s.drop_last(), sep);
        if s.last() == sep {
            p.push(seq![])
        } else {
            p.update(p.len() - 1, p[p.len() - 1].push(s.last()))
        }
    }
}

proof fn lemma_split_on_nonempty(s: Seq<char>, sep: char)
    ensures
        split_on(s, sep).len() >= 1,
    decreases s.len(),
{
    if s.len() > 0 {
        lemma_split_on_nonempty(s.drop_last(), sep);
    }
}

proof fn lemma_split_on_extend(x: Seq<char>, b: Seq<char>, sep: char)
    requires
        lacks(b, sep),
    ensures
        split_on(x + b, sep).len() == split_on(x, sep).len(),
        split_on(x + b, sep) == split_on(x, sep).update(
            split_on(x, sep).len() - 1,
            split_on(x, sep)[split_on(x, sep).len() - 1] + b,
        ),
    decreases b.len(),
{
    lemma_split_on_nonempty(x, sep);
    let p = split_on(x, sep);
    if b.len() == 0 {
        assert(x + b =~= x);
        assert(p[p.len() - 1] + b =~= p[p.len() - 1]);
        assert(p.update(p.len() - 1, p[p.len() - 1] + b) =~= p);
    } else {
        let b0 = b.drop_last();
        assert forall|i: int| 0 <= i < b0.len() implies #[trigger] b0[i] != sep by {
            assert(b0[i] == b[i]);
        }
        lemma_split_on_extend(x, b0, sep);
        assert((x + b).drop_last() =~= x + b0);
        assert((x + b).last() == b[b.len() - 1]);
        assert(b[b.len() - 1] != sep);
        let q = split_on(x + b0, sep);
        assert((p[p.len() - 1] + b0).push(b[b.len() - 1]) =~= p[p.len() - 1] + b);
        assert(q.update(q.len() - 1, q[q.len() - 1].push(b[b.len() - 1])) =~= p.update(
            p.len() - 1,
            p[p.len() - 1] + b,
        ));
    }
}

/// Splitting at `sep` the pieces joined with `sep` gives the pieces back, when
/// none of them holds `sep`.
pub proof fn lemma_split_join(parts: Seq<Seq<char>>, sep: char)
    requires
        parts.len() >= 1,
        forall|k: int| 0 <= k < parts.len() ==> lacks(#[trigger] parts[k], sep),
    ensures
        split_on(join(parts, seq![sep]), sep) == parts,
    decreases parts.len(),
{
    let e = Seq::<char>::empty();
    if parts.len() == 1 {
        assert(lacks(parts[0], sep));
        lemma_split_on_extend(e, parts[0], sep);
        assert(e + parts[0] =~= parts[0]);
        assert(split_on(e, sep) =~= seq![e]);
        assert(seq![e].update(0, e + parts[0]) =~= parts);
    } else {
        let init = parts.drop_last();
        assert forall|k: int| 0 <= k < init.len() implies lacks(#[trigger] init[k], sep) by {
            assert(init[k] == parts[k]);
        }
        lemma_split_join(init, sep);
        let j = join(init, seq![sep]);
        let last = parts[parts.len() - 1];
        assert(lacks(last, sep));
        assert((j + seq![sep]).drop_last() =~= j);
        assert(split_on(j + seq![sep], sep) == init.push(e));
        lemma_split_on_extend(j + seq![sep], last, sep);
        assert(e + last =~= last);
        assert(init.push(e).update(init.len() as int, e + last) =~= parts);
    }
}

/// Decimal notation holds no `c` that is not a digit.
pub proof fn lemma_decimal_lacks(n: nat, c: char)
    requires
        !('0' <= c && c <= '9'),
    ensures
        lacks(decimal(n), c),
    decreases n,
{
    if n >= 10 {
        lemma_decimal_lacks(n / 10, c);
        assert forall|i: int| 0 <= i < decimal(n).len() implies #[trigger] decimal(n)[i] != c by {
            if i < decimal(n / 10).len() {
                assert(decimal(n)[i] == decimal(n / 10)[i]);
            }
        }
    }
}

/// Concatenation keeps a character out when both sides keep it out.
pub proof fn lemma_concat_lacks(a: Seq<char>, b: Seq<char>, c: char)
    requires
        lacks(a, c),
        lacks(b, c),
    ensures
        lacks(a + b, c),
{
    assert forall|i: int| 0 <= i < (a + b).len() implies #[trigger] (a + b)[i] != c by {
        if i < a.len() {
            assert((a + b)[i] == a[i]);
        } else {
            assert((a + b)[i] == b[i - a.len()]);
        }
    }
}

} // verus!
