//! Text primitives with their meaning over `Seq<char>`: whitespace
//! trimming, prefixes and suffixes, splitting, line breaking, joining and
//! decimal numerals.
use vstd::prelude::*;
use vstd::string::*;

verus! {

/// The characters of a `Vec<String>` as a sequence of character sequences.
pub open spec fn views(v: Seq<String>) -> Seq<Seq<char>> {
    v.map_values(|x: String| x@)
}

/// The characters of an optional string.
pub open spec fn opt_view(o: Option<String>) -> Option<Seq<char>> {
    match o {
        Some(s) => Some(s@),
        None => None,
    }
}

/// Unicode `White_Space`, the set that `char::is_whitespace` tests.
pub open spec fn is_ws(c: char) -> bool {
    ||| c == ' '
    ||| ('\t' <= c && c <= '\r')
    ||| c == '\u{85}'
    ||| c == '\u{A0}'
    ||| c == '\u{1680}'
    ||| ('\u{2000}' <= c && c <= '\u{200A}')
    ||| c == '\u{2028}'
    ||| c == '\u{2029}'
    ||| c == '\u{202F}'
    ||| c == '\u{205F}'
    ||| c == '\u{3000}'
}

/// `s` without its leading whitespace.
pub open spec fn trim_start(s: Seq<char>) -> Seq<char>
    decreases s.len(),
{
    if s.len() > 0 && is_ws(s[0]) {
        trim_start(s.drop_first())
    } else {
        s
    }
}

/// `s` without its trailing whitespace.
pub open spec fn trim_end(s: Seq<char>) -> Seq<char>
    decreases s.len(),
{
    if s.len() > 0 && is_ws(s.last()) {
        trim_end(s.drop_last())
    } else {
        s
    }
}

/// `s` without leading and trailing whitespace, as `str::trim` gives it.
pub open spec fn trim_spec(s: Seq<char>) -> Seq<char> {
    trim_end(trim_start(s))
}

/// The pieces of `s` between occurrences of `c`, as `str::split` gives them
/// for a character pattern: one more piece than there are occurrences.
pub open spec fn split_spec(s: Seq<char>, c: char) -> Seq<Seq<char>>
    decreases s.len(),
{
    if s.len() == 0 {
        seq![Seq::empty()]
    } else {
        let r = split_spec(s.drop_last(), c);
        if s.last() == c {
            r.push(Seq::empty())
        } else {
            r.update(r.len() - 1, r.last().push(s.last()))
        }
    }
}

pub proof fn lemma_split_nonempty(s: Seq<char>, c: char)
    ensures
        split_spec(s, c).len() >= 1,
    decreases s.len(),
{
    if s.len() > 0 {
        lemma_split_nonempty(s.drop_last(), c);
    }
}

/// A line's text without one carriage return at its end.
pub open spec fn strip_cr(l: Seq<char>) -> Seq<char> {
    if l.len() > 0 && l.last() == '\r' {
        l.drop_last()
    } else {
        l
    }
}

/// The lines of `s` as `str::lines` gives them: pieces between `'\n'`,
/// each piece that a `'\n'` ends loses one `'\r'` at its end, and an empty
/// final piece is no line.
pub open spec fn lines_spec(s: Seq<char>) -> Seq<Seq<char>> {
    let parts = split_spec(s, '\n');
    let n = parts.len() as int;
    let ended = parts.take(n - 1).map_values(|l: Seq<char>| strip_cr(l));
    if parts.last().len() == 0 {
        ended
    } else {
        ended.push(parts.last())
    }
}

/// The parts joined with `sep` between consecutive parts.
pub open spec fn join_spec(parts: Seq<Seq<char>>, sep: Seq<char>) -> Seq<char>
    decreases parts.len(),
{
    if parts.len() == 0 {
        Seq::empty()
    } else if parts.len() == 1 {
        parts[0]
    } else {
        join_spec(parts.drop_last(), sep) + sep + parts.last()
    }
}

/// The decimal digit of `d < 10`.
pub open spec fn digit_char(d: nat) -> char {
    ((d + 48) as u8) as char
}

/// The decimal numeral of `n`, without sign or leading zeros.
pub open spec fn decimal(n: nat) -> Seq<char>
    decreases n,
{
    if n < 10 {
        seq![digit_char(n)]
    } else {
        decimal(n / 10).push(digit_char(n % 10))
    }
}

/// The decimal numeral of `n`, with a `-` when it is negative.
pub open spec fn signed_decimal(n: int) -> Seq<char> {
    if n < 0 {
        seq!['-'] + decimal((-n) as nat)
    } else {
        decimal(n as nat)
    }
}

/// Every character of a decimal numeral is a digit.
pub proof fn lemma_decimal_digits(n: nat)
    ensures
        forall|i: int| 0 <= i < decimal(n).len() ==> is_digit(#[trigger] decimal(n)[i]),
    decreases n,
{
    if n >= 10 {
        lemma_decimal_digits(n / 10);
        assert(is_digit(digit_char(n % 10)));
        let d = decimal(n);
        let p = decimal(n / 10);
        assert(d == p.push(digit_char(n % 10)));
        assert forall|i: int| 0 <= i < d.len() implies is_digit(#[trigger] d[i]) by {
            if i < p.len() {
                assert(d[i] == p[i]);
            }
        }
    } else {
        assert(is_digit(digit_char(n)));
    }
}

/// A decimal numeral reads back as its number.
pub proof fn lemma_decimal_value(n: nat)
    ensures
        digits_value(decimal(n)) == n,
    decreases n,
{
    if n >= 10 {
        lemma_decimal_value(n / 10);
        let p = decimal(n / 10);
        let d = decimal(n);
        assert(d.drop_last() =~= p);
        assert(d.last() == digit_char(n % 10));
        assert((digit_char(n % 10) as nat) == n % 10 + 48);
        assert(digits_value(d) == digits_value(p) * 10 + ((d.last() as nat) - 48) as nat);
        assert(n == (n / 10) * 10 + n % 10);
    } else {
        let d = decimal(n);
        assert(d.drop_last() =~= Seq::<char>::empty());
        assert(d.last() == digit_char(n));
        assert((digit_char(n) as nat) == n + 48);
        assert(digits_value(d) == digits_value(d.drop_last()) * 10 + ((d.last() as nat) - 48) as nat);
        assert(digits_value(Seq::<char>::empty()) == 0);
    }
}

/// The number of digits of `n`: one below 10, one more for each factor 10.
pub proof fn lemma_decimal_len(n: nat)
    ensures
        n < 10 ==> decimal(n).len() == 1,
        10 <= n < 100 ==> decimal(n).len() == 2,
        1000 <= n < 10000 ==> decimal(n).len() == 4,
{
    if n >= 10 {
        let a = n / 10;
        if a >= 10 {
            let b = a / 10;
            if b >= 10 {
                let c = b / 10;
                assert(decimal(b).len() == decimal(c).len() + 1);
            }
            assert(decimal(a).len() == decimal(b).len() + 1);
        }
        assert(decimal(n).len() == decimal(a).len() + 1);
    }
}

/// Whether `c` is an ASCII decimal digit.
pub open spec fn is_digit(c: char) -> bool {
    '0' <= c && c <= '9'
}

/// The value of a sequence of decimal digits.
pub open spec fn digits_value(s: Seq<char>) -> nat
    decreases s.len(),
{
    if s.len() == 0 {
        0
    } else {
        digits_value(s.drop_last()) * 10 + ((s.last() as nat) - 48) as nat
    }
}

/// `s` without one leading `+`.
pub open spec fn unsigned_digits(s: Seq<char>) -> Seq<char> {
    if s.len() > 0 && s[0] == '+' {
        s.drop_first()
    } else {
        s
    }
}

/// What `usize::from_str_radix(s, 10)` accepts: an optional `+`, then one
/// or more decimal digits whose value fits in a `usize`.
pub open spec fn parse_usize_spec(s: Seq<char>) -> Option<usize> {
    let d = unsigned_digits(s);
    if d.len() > 0 && (forall|i: int| 0 <= i < d.len() ==> is_digit(#[trigger] d[i]))
        && digits_value(d) <= usize::MAX {
        Some(digits_value(d) as usize)
    } else {
        None
    }
}

/// Splitting `s`, then `c`, then a piece without `c` gives the pieces of
/// `s` and that piece.
pub proof fn lemma_split_append(s: Seq<char>, c: char, t: Seq<char>)
    requires
        !t.contains(c),
    ensures
        split_spec(s + seq![c] + t, c) == split_spec(s, c).push(t),
    decreases t.len(),
{
    if t.len() == 0 {
        assert(s + seq![c] + t =~= s.push(c));
        assert(s.push(c).drop_last() =~= s);
        assert(t =~= Seq::<char>::empty());
        assert(split_spec(s.push(c), c) == split_spec(s, c).push(Seq::<char>::empty()));
    } else {
        let x = s + seq![c] + t.drop_last();
        assert(!t.drop_last().contains(c)) by {
            if t.drop_last().contains(c) {
                let k = choose|k: int| 0 <= k < t.drop_last().len() && t.drop_last()[k] == c;
                assert(t[k] == c);
            }
        }
        lemma_split_append(s, c, t.drop_last());
        assert((s + seq![c] + t).drop_last() =~= x);
        assert((s + seq![c] + t).last() == t.last());
        assert(t.last() != c) by {
            assert(t[t.len() - 1] == t.last());
        }
        lemma_split_nonempty(x, c);
        assert(split_spec(x, c).last().push(t.last()) =~= t);
        assert(split_spec(x, c).update(split_spec(x, c).len() - 1, t) =~= split_spec(s, c).push(t));
        let y = s + seq![c] + t;
        assert(split_spec(y, c) == split_spec(x, c).update(split_spec(x, c).len() - 1, split_spec(x, c).last().push(t.last())));
    }
}

/// A piece without `c` splits into itself.
pub proof fn lemma_split_single(t: Seq<char>, c: char)
    requires
        !t.contains(c),
    ensures
        split_spec(t, c) == seq![t],
{
    lemma_split_append_first(t, c);
}

proof fn lemma_split_append_first(t: Seq<char>, c: char)
    requires
        !t.contains(c),
    ensures
        split_spec(t, c) == seq![t],
    decreases t.len(),
{
    if t.len() > 0 {
        assert(!t.drop_last().contains(c)) by {
            if t.drop_last().contains(c) {
                let k = choose|k: int| 0 <= k < t.drop_last().len() && t.drop_last()[k] == c;
                assert(t[k] == c);
            }
        }
        lemma_split_append_first(t.drop_last(), c);
        assert(t.last() != c) by {
            assert(t[t.len() - 1] == t.last());
        }
        assert(t.drop_last().push(t.last()) =~= t);
        assert(seq![t.drop_last()].update(0, t.drop_last().push(t.last())) =~= seq![t]);
    } else {
        assert(t =~= Seq::<char>::empty());
    }
}

/// Splitting what `join_spec` joined with `c` gives back the parts, when
/// no part holds `c`.
pub proof fn lemma_split_join(parts: Seq<Seq<char>>, c: char)
    requires
        parts.len() >= 1,
        forall|i: int| 0 <= i < parts.len() ==> !(#[trigger] parts[i]).contains(c),
    ensures
        split_spec(join_spec(parts, seq![c]), c) == parts,
    decreases parts.len(),
{
    if parts.len() == 1 {
        lemma_split_single(parts[0], c);
        assert(seq![parts[0]] =~= parts);
    } else {
        lemma_split_join(parts.drop_last(), c);
        assert(!parts.last().contains(c)) by {
            assert(parts[parts.len() - 1] == parts.last());
        }
        lemma_split_append(join_spec(parts.drop_last(), seq![c]), c, parts.last());
        assert(parts.drop_last().push(parts.last()) =~= parts);
    }
}

/// Whether `t` can stand as one line: no line break in it, and no carriage
/// return at its end.
pub open spec fn one_line(t: Seq<char>) -> bool {
    !t.contains('\n') && !(t.len() > 0 && t.last() == '\r')
}

/// The lines of what `join_spec` joined with line breaks are the parts,
/// when each part is one line and the last is not empty.
pub proof fn lemma_lines_join(parts: Seq<Seq<char>>)
    requires
        forall|i: int| 0 <= i < parts.len() ==> one_line(#[trigger] parts[i]),
        parts.len() > 0 ==> parts.last().len() > 0,
    ensures
        lines_spec(join_spec(parts, seq!['\n'])) == parts,
{
    if parts.len() == 0 {
        assert(join_spec(parts, seq!['\n']) =~= Seq::<char>::empty());
        assert(lines_spec(Seq::<char>::empty()) =~= parts);
    } else {
        lemma_split_join(parts, '\n');
        let n = parts.len() as int;
        assert(parts.take(n - 1).map_values(|l: Seq<char>| strip_cr(l)) =~= parts.take(n - 1));
        assert(parts.take(n - 1).push(parts.last()) =~= parts);
    }
}

/// Appends one character (`String::push`).
#[verifier::external_body]
pub fn push_char(s: &mut String, c: char)
    ensures
        final(s)@ == old(s)@.push(c),
{
    s.push(c)
}

/// The characters of `s`, one per element.
pub fn chars_of(s: &str) -> (v: Vec<char>)
    ensures
        v@ == s@,
{
    let n = s.unicode_len();
    let mut v: Vec<char> = Vec::new();
    let mut i: usize = 0;
    while i < n
        invariant
            n == s@.len(),
            i <= n,
            v@ == s@.take(i as int),
        decreases n - i,
    {
        v.push(s.get_char(i));
        i = i + 1;
        assert(v@ =~= s@.take(i as int));
    }
    assert(v@ =~= s@);
    v
}

/// The string of the characters `v[from..to]`.
pub fn string_of(v: &Vec<char>, from: usize, to: usize) -> (r: String)
    requires
        from <= to <= v@.len(),
    ensures
        r@ == v@.subrange(from as int, to as int),
{
    let mut r = String::new();
    let mut i = from;
    while i < to
        invariant
            from <= i <= to <= v@.len(),
            r@ == v@.subrange(from as int, i as int),
        decreases to - i,
    {
        push_char(&mut r, v[i]);
        i = i + 1;
        assert(r@ =~= v@.subrange(from as int, i as int));
    }
    r
}


/// The position of the first non-whitespace character of `v[from..to]`
/// (or `to`), and the end of its last one.
proof fn lemma_trim_start_step(s: Seq<char>, i: int)
    requires
        0 <= i < s.len(),
        is_ws(s[i]),
    ensures
        trim_start(s.subrange(i, s.len() as int)) == trim_start(s.subrange(i + 1, s.len() as int)),
{
    assert(s.subrange(i, s.len() as int).drop_first() =~= s.subrange(i + 1, s.len() as int));
}

proof fn lemma_trim_end_step(s: Seq<char>, j: int)
    requires
        0 < j <= s.len(),
        is_ws(s[j - 1]),
    ensures
        trim_end(s.subrange(0, j)) == trim_end(s.subrange(0, j - 1)),
{
    assert(s.subrange(0, j).drop_last() =~= s.subrange(0, j - 1));
}

/// `s` without leading and trailing whitespace (`str::trim`).
pub fn trim(s: &str) -> (r: String)
    ensures
        r@ == trim_spec(s@),
{
    let v = chars_of(s);
    let n = v.len();
    let mut i: usize = 0;
    assert(s@.subrange(0, n as int) =~= s@);
    while i < n && is_ws_exec(v[i])
        invariant
            v@ == s@,
            n == v@.len(),
            i <= n,
            trim_start(s@) == trim_start(s@.subrange(i as int, n as int)),
        decreases n - i,
    {
        proof {
            lemma_trim_start_step(s@, i as int);
        }
        i = i + 1;
    }
    assert(s@.subrange(0, n as int) =~= s@);
    let ghost t = s@.subrange(i as int, n as int);
    assert(trim_start(t) == t);
    assert(t.subrange(0, (n - i) as int) =~= t);
    let mut j: usize = n;
    while j > i && is_ws_exec(v[j - 1])
        invariant
            v@ == s@,
            n == v@.len(),
            i <= j <= n,
            t == s@.subrange(i as int, n as int),
            trim_end(t) == trim_end(t.subrange(0, j - i)),
        decreases j,
    {
        proof {
            lemma_trim_end_step(t, (j - i) as int);
            assert(t.subrange(0, (j - 1 - i) as int) =~= t.subrange(0, (j - i) as int).subrange(0, (j - 1 - i) as int));
        }
        j = j - 1;
    }
    proof {
        if j > i {
            assert(!is_ws(t.subrange(0, (j - i) as int).last()));
        }
        assert(t.subrange(0, (j - i) as int) =~= s@.subrange(i as int, j as int));
    }
    string_of(&v, i, j)
}

/// Whether `c` is whitespace (`char::is_whitespace`).
pub fn is_ws_exec(c: char) -> (b: bool)
    ensures
        b == is_ws(c),
{
    c == ' ' || ('\t' <= c && c <= '\r') || c == '\u{85}' || c == '\u{A0}' || c == '\u{1680}'
        || ('\u{2000}' <= c && c <= '\u{200A}') || c == '\u{2028}' || c == '\u{2029}' || c
        == '\u{202F}' || c == '\u{205F}' || c == '\u{3000}'
}

/// Whether `s` begins with `p` (`str::starts_with`).
pub fn starts_with(s: &str, p: &str) -> (b: bool)
    ensures
        b == p@.is_prefix_of(s@),
{
    let sv = chars_of(s);
    let pv = chars_of(p);
    if pv.len() > sv.len() {
        return false;
    }
    let mut i: usize = 0;
    while i < pv.len()
        invariant
            sv@ == s@,
            pv@ == p@,
            pv@.len() <= sv@.len(),
            i <= pv@.len(),
            forall|k: int| 0 <= k < i ==> sv@[k] == pv@[k],
        decreases pv@.len() - i,
    {
        if sv[i] != pv[i] {
            assert(!(p@ =~= s@.subrange(0, p@.len() as int)) ) by {
                assert(s@.subrange(0, p@.len() as int)[i as int] == sv@[i as int]);
            }
            return false;
        }
        i = i + 1;
    }
    assert(p@ =~= s@.subrange(0, p@.len() as int));
    true
}

/// Whether `s` ends with `p` (`str::ends_with`).
pub fn ends_with(s: &str, p: &str) -> (b: bool)
    ensures
        b == p@.is_suffix_of(s@),
{
    let sv = chars_of(s);
    let pv = chars_of(p);
    if pv.len() > sv.len() {
        return false;
    }
    let off = sv.len() - pv.len();
    let mut i: usize = 0;
    while i < pv.len()
        invariant
            sv@ == s@,
            pv@ == p@,
            off == sv@.len() - pv@.len(),
            off + pv@.len() == sv@.len(),
            sv@.len() <= usize::MAX,
            i <= pv@.len(),
            forall|k: int| 0 <= k < i ==> sv@[off + k] == pv@[k],
        decreases pv@.len() - i,
    {
        if sv[off + i] != pv[i] {
            assert(!(p@ =~= s@.subrange(s@.len() - p@.len(), s@.len() as int))) by {
                assert(s@.subrange(s@.len() - p@.len(), s@.len() as int)[i as int] == sv@[off + i]);
            }
            return false;
        }
        i = i + 1;
    }
    assert(p@ =~= s@.subrange(s@.len() - p@.len(), s@.len() as int));
    true
}


/// The pieces of `s` between occurrences of `c` (`str::split`).
pub fn split_on(s: &str, c: char) -> (r: Vec<String>)
    ensures
        views(r@) == split_spec(s@, c),
{
    let v = chars_of(s);
    let n = v.len();
    let mut out: Vec<String> = Vec::new();
    let mut start: usize = 0;
    let mut i: usize = 0;
    assert(s@.take(0) =~= Seq::<char>::empty());
    while i < n
        invariant
            v@ == s@,
            n == v@.len(),
            start <= i <= n,
            views(out@).push(v@.subrange(start as int, i as int)) == split_spec(s@.take(i as int), c),
        decreases n - i,
    {
        let ghost before = s@.take(i as int);
        let ghost prev = views(out@);
        let ghost cur = v@.subrange(start as int, i as int);
        assert(s@.take(i as int + 1).drop_last() =~= before);
        assert(s@.take(i as int + 1).last() == v@[i as int]);
        if v[i] == c {
            let piece = string_of(&v, start, i);
            out.push(piece);
            i = i + 1;
            start = i;
            assert(views(out@) =~= prev.push(cur));
            assert(v@.subrange(start as int, i as int) =~= Seq::<char>::empty());
        } else {
            i = i + 1;
            assert(v@.subrange(start as int, i as int) =~= cur.push(v@[i - 1]));
        }
    }
    let piece = string_of(&v, start, n);
    out.push(piece);
    assert(s@.take(n as int) =~= s@);
    assert(views(out@) =~= views(out@.drop_last()).push(piece@));
    out
}


/// `l` without one carriage return at its end.
fn strip_cr_exec(l: &String) -> (r: String)
    ensures
        r@ == strip_cr(l@),
{
    let v = chars_of(l.as_str());
    if v.len() > 0 && v[v.len() - 1] == '\r' {
        string_of(&v, 0, v.len() - 1)
    } else {
        string_of(&v, 0, v.len())
    }
}

/// The lines of `s` (`str::lines`).
pub fn lines(s: &str) -> (r: Vec<String>)
    ensures
        views(r@) == lines_spec(s@),
{
    let parts = split_on(s, '\n');
    proof {
        lemma_split_nonempty(s@, '\n');
    }
    let ghost ps = split_spec(s@, '\n');
    let n = parts.len();
    let mut out: Vec<String> = Vec::new();
    let mut k: usize = 0;
    while k + 1 < n
        invariant
            views(parts@) == ps,
            n == parts@.len(),
            n >= 1,
            k < n,
            views(out@) == ps.take(k as int).map_values(|l: Seq<char>| strip_cr(l)),
        decreases n - k,
    {
        assert(ps[k as int] == parts@[k as int]@);
        let line = strip_cr_exec(&parts[k]);
        let ghost prev = views(out@);
        let ghost lv = line@;
        out.push(line);
        k = k + 1;
        assert(views(out@) =~= prev.push(lv));
        assert(ps.take(k as int) =~= ps.take(k - 1).push(ps[k - 1]));
        assert(ps.take(k as int).map_values(|l: Seq<char>| strip_cr(l)) =~= ps.take(k - 1).map_values(|l: Seq<char>| strip_cr(l)).push(strip_cr(ps[k - 1])));
        assert(views(out@) =~= ps.take(k as int).map_values(|l: Seq<char>| strip_cr(l)));
    }
    let last_part = &parts[n - 1];
    if last_part.unicode_len() > 0 {
        out.push(last_part.clone());
        assert(views(out@) =~= ps.take(n - 1).map_values(|l: Seq<char>| strip_cr(l)).push(ps.last()));
    }
    out
}

/// The parts joined with `sep` between consecutive parts (`[String]::join`).
pub fn join(parts: &Vec<String>, sep: &str) -> (r: String)
    ensures
        r@ == join_spec(views(parts@), sep@),
{
    let mut r = String::new();
    let mut i: usize = 0;
    while i < parts.len()
        invariant
            i <= parts@.len(),
            r@ == join_spec(views(parts@).take(i as int), sep@),
        decreases parts@.len() - i,
    {
        assert(views(parts@).take(i as int + 1).drop_last() =~= views(parts@).take(i as int));
        if i > 0 {
            r.append(sep);
        }
        r.append(parts[i].as_str());
        i = i + 1;
        assert(views(parts@).take(i as int).last() == parts@[i - 1]@);
        if i == 1 {
            assert(r@ =~= join_spec(views(parts@).take(i as int), sep@));
        }
    }
    assert(views(parts@).take(parts@.len() as int) =~= views(parts@));
    r
}

/// The decimal numeral of `n` (`u64::to_string`).
pub fn decimal_string(n: u64) -> (r: String)
    ensures
        r@ == decimal(n as nat),
    decreases n,
{
    let d: u8 = (n % 10) as u8 + 48;
    if n < 10 {
        let mut r = String::new();
        push_char(&mut r, d as char);
        assert(r@ =~= decimal(n as nat));
        r
    } else {
        let mut r = decimal_string(n / 10);
        push_char(&mut r, d as char);
        r
    }
}

proof fn lemma_digits_prefix(d: Seq<char>, k: int)
    requires
        0 <= k <= d.len(),
    ensures
        digits_value(d.take(k)) <= digits_value(d),
    decreases d.len() - k,
{
    if k < d.len() {
        lemma_digits_prefix(d, k + 1);
        assert(d.take(k + 1).drop_last() =~= d.take(k));
    } else {
        assert(d.take(k) =~= d);
    }
}

/// A decimal numeral's value (`usize::from_str_radix(s, 10)`).
pub fn parse_usize(s: &str) -> (r: Option<usize>)
    ensures
        r == parse_usize_spec(s@),
{
    let v = chars_of(s);
    let start: usize = if v.len() > 0 && v[0] == '+' { 1 } else { 0 };
    let ghost d = unsigned_digits(s@);
    assert(d =~= s@.subrange(start as int, s@.len() as int));
    if start == v.len() {
        assert(d.len() == 0);
        return None;
    }
    let mut i: usize = start;
    while i < v.len()
        invariant
            v@ == s@,
            start <= i <= v@.len(),
            d == v@.subrange(start as int, v@.len() as int),
            d == unsigned_digits(s@),
            forall|k: int| 0 <= k < i - start ==> is_digit(#[trigger] d[k]),
        decreases v@.len() - i,
    {
        if !('0' <= v[i] && v[i] <= '9') {
            assert(!is_digit(d[i - start]));
            assert(!(forall|k: int| 0 <= k < d.len() ==> is_digit(#[trigger] d[k])));
            assert(parse_usize_spec(s@) is None);
            return None;
        }
        i = i + 1;
    }
    let mut value: usize = 0;
    let mut j: usize = start;
    while j < v.len()
        invariant
            v@ == s@,
            start <= j <= v@.len(),
            d == v@.subrange(start as int, v@.len() as int),
            d == unsigned_digits(s@),
            forall|k: int| 0 <= k < d.len() ==> is_digit(#[trigger] d[k]),
            value == digits_value(d.take(j - start)),
        decreases v@.len() - j,
    {
        let c = v[j];
        assert(c == d[j - start]);
        assert(is_digit(d[j - start]));
        let dg: usize = (c as u32 - 48) as usize;
        assert(d.take(j - start + 1).drop_last() =~= d.take(j - start));
        assert(d.take(j - start + 1).last() == c);
        assert(digits_value(d.take(j - start + 1)) == value * 10 + dg);
        if value > (usize::MAX - dg) / 10 {
            proof {
                lemma_digits_prefix(d, j - start + 1);
                assert(value * 10 + dg > usize::MAX) by (nonlinear_arith)
                    requires
                        value > (usize::MAX - dg) / 10,
                        dg <= 9,
                ;
                assert(digits_value(d) > usize::MAX);
                assert(parse_usize_spec(s@) is None);
            }
            return None;
        }
        value = value * 10 + dg;
        j = j + 1;
    }
    assert(d.take(d.len() as int) =~= d);
    Some(value)
}


/// Whether every character of `d` is a decimal digit.
pub open spec fn all_digits(d: Seq<char>) -> bool {
    forall|i: int| 0 <= i < d.len() ==> is_digit(#[trigger] d[i])
}

/// `s` without one leading `-`.
pub open spec fn int_digits(s: Seq<char>) -> Seq<char> {
    if s.len() > 0 && s[0] == '-' {
        s.drop_first()
    } else {
        s
    }
}

/// What parsing a signed decimal numeral into an `i64` accepts: an
/// optional `-`, then one or more decimal digits whose value fits.
pub open spec fn parse_int_spec(s: Seq<char>) -> Option<int> {
    let neg = s.len() > 0 && s[0] == '-';
    let d = int_digits(s);
    if d.len() > 0 && all_digits(d) {
        if neg && digits_value(d) <= 0x8000_0000_0000_0000 {
            Some(-digits_value(d))
        } else if !neg && digits_value(d) <= i64::MAX {
            Some(digits_value(d) as int)
        } else {
            None
        }
    } else {
        None
    }
}

/// A signed decimal numeral's value (`i64::from_str`).
#[verifier::rlimit(30)]
pub fn parse_int(s: &str) -> (r: Option<i64>)
    ensures
        match parse_int_spec(s@) {
            Some(n) => r matches Some(v) && v as int == n,
            None => r is None,
        },
{
    let v = chars_of(s);
    let neg = v.len() > 0 && v[0] == '-';
    let start: usize = if neg { 1 } else { 0 };
    let limit: u64 = if neg { 0x8000_0000_0000_0000 } else { 0x7fff_ffff_ffff_ffff };
    let ghost d = int_digits(s@);
    assert(d =~= s@.subrange(start as int, s@.len() as int));
    if start == v.len() {
        assert(d.len() == 0);
        return None;
    }
    let mut value: u64 = 0;
    let mut j: usize = start;
    while j < v.len()
        invariant
            v@ == s@,
            start <= j <= v@.len(),
            start < v@.len(),
            d == v@.subrange(start as int, v@.len() as int),
            d == int_digits(s@),
            neg == (s@.len() > 0 && s@[0] == '-'),
            start == (if neg { 1usize } else { 0usize }),
            limit == (if neg { 0x8000_0000_0000_0000u64 } else { 0x7fff_ffff_ffff_ffffu64 }),
            forall|k: int| 0 <= k < j - start ==> is_digit(#[trigger] d[k]),
            value == digits_value(d.take(j - start)),
            value <= limit,
        decreases v@.len() - j,
    {
        let c = v[j];
        assert(c == d[j - start]);
        if !('0' <= c && c <= '9') {
            assert(!is_digit(d[j - start]));
            assert(!all_digits(d));
            assert(parse_int_spec(s@) is None);
            return None;
        }
        let dg: u64 = (c as u32 - 48) as u64;
        assert(d.take(j - start + 1).drop_last() =~= d.take(j - start));
        assert(d.take(j - start + 1).last() == c);
        assert(digits_value(d.take(j - start + 1)) == value * 10 + dg);
        if value > (limit - dg) / 10 {
            // The rest of the digits can only make the value larger.
            let mut k: usize = j + 1;
            while k < v.len()
                invariant
                    v@ == s@,
                    j < k <= v@.len(),
                    d == v@.subrange(start as int, v@.len() as int),
                    d == int_digits(s@),
                    neg == (s@.len() > 0 && s@[0] == '-'),
                    start <= j,
                    forall|q: int| 0 <= q < k - start ==> is_digit(#[trigger] d[q]),
                decreases v@.len() - k,
            {
                if !('0' <= v[k] && v[k] <= '9') {
                    assert(!is_digit(d[k - start]));
                    assert(!all_digits(d));
                    assert(parse_int_spec(s@) is None);
                    return None;
                }
                assert(is_digit(d[k - start]));
                k = k + 1;
            }
            proof {
                lemma_digits_prefix(d, j - start + 1);
                assert(value * 10 + dg > limit) by (nonlinear_arith)
                    requires
                        value > (limit - dg) / 10,
                        dg <= 9,
                        limit >= 9,
                ;
                assert(digits_value(d) > limit);
                assert(parse_int_spec(s@) is None);
            }
            return None;
        }
        value = value * 10 + dg;
        j = j + 1;
    }
    assert(d.take(d.len() as int) =~= d);
    if neg {
        if value == 0x8000_0000_0000_0000 {
            Some(i64::MIN)
        } else {
            Some(-(value as i64))
        }
    } else {
        Some(value as i64)
    }
}

/// The decimal numeral of `n` with its sign (`i64::to_string`).
pub fn signed_decimal_string(n: i64) -> (r: String)
    ensures
        r@ == signed_decimal(n as int),
{
    if n < 0 {
        let m: u64 = (0i128 - n as i128) as u64;
        let mut r = String::new();
        push_char(&mut r, '-');
        let d = decimal_string(m);
        r.append(d.as_str());
        assert(r@ =~= seq!['-'] + decimal((-n) as nat));
        r
    } else {
        decimal_string(n as u64)
    }
}


/// Whether `a` and `b` are the same text.
pub fn str_eq(a: &str, b: &str) -> (r: bool)
    ensures
        r == (a@ == b@),
{
    let av = chars_of(a);
    let bv = chars_of(b);
    if av.len() != bv.len() {
        return false;
    }
    let mut i: usize = 0;
    while i < av.len()
        invariant
            av@ == a@,
            bv@ == b@,
            av@.len() == bv@.len(),
            i <= av@.len(),
            forall|k: int| 0 <= k < i ==> av@[k] == bv@[k],
        decreases av@.len() - i,
    {
        if av[i] != bv[i] {
            return false;
        }
        i = i + 1;
    }
    assert(a@ =~= b@);
    true
}

} // verus!
