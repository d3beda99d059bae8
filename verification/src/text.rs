//! Text helpers with the meaning of the std operations they stand for:
//! whitespace trimming, line splitting, joining and padding.

use vstd::prelude::*;

verus! {

/// The Unicode `White_Space` property, which `char::is_whitespace` and
/// `str::trim` go by.
pub open spec fn is_white_space(c: char) -> bool {
    let u = c as u32;
    ||| (0x9 <= u && u <= 0xd)
    ||| u == 0x20
    ||| u == 0x85
    ||| u == 0xa0
    ||| u == 0x1680
    ||| (0x2000 <= u && u <= 0x200a)
    ||| u == 0x2028
    ||| u == 0x2029
    ||| u == 0x202f
    ||| u == 0x205f
    ||| u == 0x3000
}

/// `s` with its leading white space removed.
pub open spec fn trim_start(s: Seq<char>) -> Seq<char>
    decreases s.len(),
{
    if s.len() > 0 && is_white_space(s[0]) {
        trim_start(s.drop_first())
    } else {
        s
    }
}

/// `s` with its trailing white space removed.
pub open spec fn trim_end(s: Seq<char>) -> Seq<char>
    decreases s.len(),
{
    if s.len() > 0 && is_white_space(s.last()) {
        trim_end(s.drop_last())
    } else {
        s
    }
}

/// `s` with leading and trailing white space removed, as `str::trim` does.
pub open spec fn trim(s: Seq<char>) -> Seq<char> {
    trim_end(trim_start(s))
}

proof fn lemma_trim_start_shape(s: Seq<char>)
    ensures
        trim_start(s).len() == 0 || !is_white_space(trim_start(s)[0]),
        trim_start(s).len() <= s.len(),
    decreases s.len(),
{
    if s.len() > 0 && is_white_space(s[0]) {
        lemma_trim_start_shape(s.drop_first());
    }
}

proof fn lemma_trim_end_shape(s: Seq<char>)
    ensures
        trim_end(s).len() <= s.len(),
        trim_end(s) == s.take(trim_end(s).len() as int),
        trim_end(s).len() == 0 || !is_white_space(trim_end(s).last()),
    decreases s.len(),
{
    if s.len() > 0 && is_white_space(s.last()) {
        lemma_trim_end_shape(s.drop_last());
        let t = trim_end(s.drop_last());
        assert(s.drop_last().take(t.len() as int) =~= s.take(t.len() as int));
    } else {
        assert(s.take(s.len() as int) =~= s);
    }
}

/// Trimming a trimmed text changes nothing.
pub proof fn lemma_trim_idempotent(s: Seq<char>)
    ensures
        trim(trim(s)) == trim(s),
{
    let u = trim_start(s);
    lemma_trim_start_shape(s);
    lemma_trim_end_shape(u);
    let v = trim_end(u);
    if v.len() > 0 {
        assert(v[0] == u[0]);
    }
    assert(trim_start(v) == v);
    assert(trim_end(v) == v);
}

proof fn lemma_trim_start_removes(s: Seq<char>)
    ensures
        trim_start(s).len() <= s.len(),
        trim_start(s) == s.skip(s.len() - trim_start(s).len()),
        forall|i: int| 0 <= i < s.len() - trim_start(s).len() ==> is_white_space(#[trigger] s[i]),
    decreases s.len(),
{
    if s.len() > 0 && is_white_space(s[0]) {
        let rest = s.drop_first();
        lemma_trim_start_removes(rest);
        let k = rest.len() - trim_start(rest).len();
        assert(rest.skip(k) =~= s.skip(k + 1));
        assert forall|i: int| 0 <= i < s.len() - trim_start(s).len() implies is_white_space(#[trigger] s[i]) by {
            if i > 0 {
                assert(s[i] == rest[i - 1]);
            }
        }
    } else {
        assert(s.skip(0) =~= s);
    }
}

proof fn lemma_trim_end_removes(s: Seq<char>)
    ensures
        forall|i: int| trim_end(s).len() <= i < s.len() ==> is_white_space(#[trigger] s[i]),
    decreases s.len(),
{
    if s.len() > 0 && is_white_space(s.last()) {
        let front = s.drop_last();
        lemma_trim_end_removes(front);
        lemma_trim_end_shape(front);
        assert forall|i: int| trim_end(s).len() <= i < s.len() implies is_white_space(#[trigger] s[i]) by {
            if i < s.len() - 1 {
                assert(s[i] == front[i]);
            }
        }
    }
}

/// Trimming cuts white space off both ends and nothing else: the result is
/// a piece of the text, all that is cut off in front of it and behind it
/// is white space, and it neither starts nor ends with white space.
pub proof fn lemma_trim_cuts_white_space(s: Seq<char>)
    ensures
        exists|i: int, j: int|
            0 <= i <= j <= s.len() && trim(s) == #[trigger] s.subrange(i, j)
                && (forall|k: int| 0 <= k < i ==> is_white_space(#[trigger] s[k]))
                && (forall|k: int| j <= k < s.len() ==> is_white_space(#[trigger] s[k])),
        trim(s).len() == 0 || (!is_white_space(trim(s)[0]) && !is_white_space(trim(s).last())),
{
    let u = trim_start(s);
    lemma_trim_start_removes(s);
    lemma_trim_start_shape(s);
    lemma_trim_end_shape(u);
    lemma_trim_end_removes(u);
    let v = trim_end(u);
    let i = s.len() - u.len();
    let j = i + v.len();
    assert(v =~= s.subrange(i, j));
    assert forall|k: int| j <= k < s.len() implies is_white_space(#[trigger] s[k]) by {
        assert(s[k] == u[k - i]);
    }
    if v.len() > 0 {
        assert(v[0] == u[0]);
    }
}

/// Whether `c` is white space, as `char::is_whitespace` says.
pub fn is_white_space_char(c: char) -> (r: bool)
    ensures
        r == is_white_space(c),
{
    let u = c as u32;
    (0x9 <= u && u <= 0xd) || u == 0x20 || u == 0x85 || u == 0xa0 || u == 0x1680 || (0x2000
        <= u && u <= 0x200a) || u == 0x2028 || u == 0x2029 || u == 0x202f || u == 0x205f || u
        == 0x3000
}

proof fn lemma_trim_start_skip(s: Seq<char>, i: int)
    requires
        0 <= i <= s.len(),
        forall|k: int| 0 <= k < i ==> is_white_space(#[trigger] s[k]),
    ensures
        trim_start(s) == trim_start(s.subrange(i, s.len() as int)),
    decreases i,
{
    if i > 0 {
        lemma_trim_start_skip(s.drop_first(), i - 1);
        assert(s.drop_first().subrange(i - 1, s.len() - 1) =~= s.subrange(i, s.len() as int));
    } else {
        assert(s.subrange(0, s.len() as int) =~= s);
    }
}

proof fn lemma_trim_end_cut(s: Seq<char>, j: int)
    requires
        0 <= j <= s.len(),
        forall|k: int| j <= k < s.len() ==> is_white_space(#[trigger] s[k]),
    ensures
        trim_end(s) == trim_end(s.subrange(0, j)),
    decreases s.len() - j,
{
    if j < s.len() {
        lemma_trim_end_cut(s.drop_last(), j);
        assert(s.drop_last().subrange(0, j) =~= s.subrange(0, j));
    } else {
        assert(s.subrange(0, j) =~= s);
    }
}

/// Removes leading and trailing white space, as `str::trim` does.
pub fn trim_str(s: &str) -> (r: String)
    ensures
        r@ == trim(s@),
{
    let n = s.unicode_len();
    let mut i: usize = 0;
    while i < n && is_white_space_char(s.get_char(i))
        invariant
            n == s@.len(),
            i <= n,
            forall|k: int| 0 <= k < i ==> is_white_space(#[trigger] s@[k]),
        decreases n - i,
    {
        i = i + 1;
    }
    proof {
        lemma_trim_start_skip(s@, i as int);
    }
    let mut j: usize = n;
    while j > i && is_white_space_char(s.get_char(j - 1))
        invariant
            n == s@.len(),
            i <= j <= n,
            forall|k: int| j <= k < n ==> is_white_space(#[trigger] s@[k]),
        decreases j,
    {
        j = j - 1;
    }
    let ghost rest = s@.subrange(i as int, n as int);
    proof {
        assert(trim_start(rest) == rest);
        lemma_trim_end_cut(rest, j - i);
        assert(rest.subrange(0, j - i) =~= s@.subrange(i as int, j as int));
        let t = s@.subrange(i as int, j as int);
        assert(trim_end(t) == t);
    }
    String::from_str(s.substring_char(i, j))
}


/// The character view of an optional string.
pub open spec fn opt_view(o: Option<String>) -> Option<Seq<char>> {
    match o {
        Some(s) => Some(s@),
        None => None,
    }
}

/// The character views of a sequence of strings.
pub open spec fn views(v: Seq<String>) -> Seq<Seq<char>> {
    v.map_values(|x: String| x@)
}

/// `parts` joined with `sep` between consecutive parts, as `[String]::join` does.
pub open spec fn join(parts: Seq<Seq<char>>, sep: Seq<char>) -> Seq<char>
    decreases parts.len(),
{
    if parts.len() == 0 {
        Seq::empty()
    } else if parts.len() == 1 {
        parts[0]
    } else {
        join(parts.drop_last(), sep) + sep + parts.last()
    }
}

/// Joins `parts` with `sep` between consecutive parts.
pub fn join_strings(parts: &Vec<String>, sep: &str) -> (r: String)
    ensures
        r@ == join(views(parts@), sep@),
{
    let ghost all = views(parts@);
    let mut r = String::new();
    let n = parts.len();
    let mut i: usize = 0;
    while i < n
        invariant
            n == parts@.len(),
            all == views(parts@),
            i <= n,
            r@ == join(all.take(i as int), sep@),
        decreases n - i,
    {
        assert(all.take(i + 1).drop_last() =~= all.take(i as int));
        if i > 0 {
            r.append(sep);
        }
        r.append(parts[i].as_str());
        i = i + 1;
    }
    assert(all.take(n as int) =~= all);
    r
}

/// `s` cut at every newline; the last piece is what follows the last newline.
pub open spec fn split_newlines(s: Seq<char>) -> Seq<Seq<char>>
    decreases s.len(),
{
    if s.len() == 0 {
        seq![Seq::empty()]
    } else {
        let pre = split_newlines(s.drop_last());
        if s.last() == '\n' {
            pre.push(Seq::empty())
        } else {
            pre.update(pre.len() - 1, pre.last().push(s.last()))
        }
    }
}

/// A newline-terminated piece without a carriage return before its newline.
pub open spec fn strip_cr(line: Seq<char>) -> Seq<char> {
    if line.len() > 0 && line.last() == '\r' {
        line.drop_last()
    } else {
        line
    }
}

/// The lines of `s`, as `str::lines` gives them: lines end at `\n` or
/// `\r\n`, the terminator is not part of the line, and a final empty line
/// after the last terminator is not a line.
pub open spec fn lines(s: Seq<char>) -> Seq<Seq<char>> {
    let pieces = split_newlines(s);
    let ended = pieces.drop_last().map_values(|p: Seq<char>| strip_cr(p));
    if pieces.last().len() > 0 {
        ended.push(pieces.last())
    } else {
        ended
    }
}

proof fn lemma_split_newlines_len(s: Seq<char>)
    ensures
        split_newlines(s).len() >= 1,
    decreases s.len(),
{
    if s.len() > 0 {
        lemma_split_newlines_len(s.drop_last());
    }
}

/// Splits `s` into its lines, as `str::lines` does.
pub fn split_lines(s: &str) -> (r: Vec<String>)
    ensures
        views(r@) == lines(s@),
{
    let n = s.unicode_len();
    let mut r: Vec<String> = Vec::new();
    let mut start: usize = 0;
    let mut i: usize = 0;
    let ghost mut pieces: Seq<Seq<char>> = Seq::empty();
    assert(s@.take(0) =~= Seq::<char>::empty());
    assert(s@.subrange(0, 0) =~= Seq::<char>::empty());
    assert(views(r@) =~= pieces.map_values(|p: Seq<char>| strip_cr(p)));
    while i < n
        invariant
            n == s@.len(),
            start <= i <= n,
            split_newlines(s@.take(i as int)) == pieces.push(s@.subrange(start as int, i as int)),
            views(r@) == pieces.map_values(|p: Seq<char>| strip_cr(p)),
        decreases n - i,
    {
        let c = s.get_char(i);
        proof {
            assert(s@.take(i + 1).drop_last() =~= s@.take(i as int));
            assert(s@.take(i + 1).last() == c);
        }
        if c == '\n' {
            let piece = s.substring_char(start, i);
            let line = if i > start && piece.get_char(i - start - 1) == '\r' {
                String::from_str(piece.substring_char(0, i - start - 1))
            } else {
                String::from_str(piece)
            };
            proof {
                assert(line@ == strip_cr(piece@));
                let old_pieces = pieces;
                pieces = pieces.push(piece@);
                assert(views(r@.push(line)) =~= views(r@).push(line@));
                assert(pieces.map_values(|p: Seq<char>| strip_cr(p)) =~= old_pieces.map_values(
                    |p: Seq<char>| strip_cr(p),
                ).push(strip_cr(piece@)));
                assert(s@.subrange((i + 1) as int, (i + 1) as int) =~= Seq::<char>::empty());
                assert(split_newlines(s@.take(i + 1)) =~= pieces.push(Seq::empty()));
            }
            r.push(line);
            start = i + 1;
        } else {
            proof {
                assert(s@.subrange(start as int, i + 1) =~= s@.subrange(start as int, i as int).push(c));
                assert(split_newlines(s@.take(i + 1)) =~= pieces.push(s@.subrange(start as int, i + 1)));
            }
        }
        i = i + 1;
    }
    assert(s@.take(n as int) =~= s@);
    let ghost p = split_newlines(s@);
    assert(p.drop_last() =~= pieces);
    if start < n {
        let last = String::from_str(s.substring_char(start, n));
        proof {
            assert(views(r@.push(last)) =~= views(r@).push(last@));
        }
        r.push(last);
    }
    r
}

/// No character of `s` is a newline.
pub open spec fn no_newline(s: Seq<char>) -> bool {
    forall|k: int| 0 <= k < s.len() ==> s[k] != '\n'
}

proof fn lemma_split_newlines_append(a: Seq<char>, b: Seq<char>)
    requires
        no_newline(b),
    ensures
        split_newlines(a + b) == split_newlines(a).update(
            split_newlines(a).len() - 1,
            split_newlines(a).last() + b,
        ),
    decreases b.len(),
{
    lemma_split_newlines_len(a);
    if b.len() == 0 {
        assert(a + b =~= a);
        assert(split_newlines(a).last() + b =~= split_newlines(a).last());
        assert(split_newlines(a).update(split_newlines(a).len() - 1, split_newlines(a).last())
            =~= split_newlines(a));
    } else {
        let b0 = b.drop_last();
        lemma_split_newlines_append(a, b0);
        assert((a + b).drop_last() =~= a + b0);
        assert((a + b).last() == b.last());
        assert(b0.push(b.last()) =~= b);
        let p = split_newlines(a);
        assert(p.update(p.len() - 1, p.last() + b0).update(p.len() - 1, (p.last() + b0).push(
            b.last(),
        )) =~= p.update(p.len() - 1, p.last() + b));
    }
}

proof fn lemma_split_newlines_of_join(ids: Seq<Seq<char>>)
    requires
        ids.len() >= 1,
        forall|i: int| 0 <= i < ids.len() ==> no_newline(#[trigger] ids[i]),
    ensures
        split_newlines(join(ids, seq!['\n'])) == ids,
    decreases ids.len(),
{
    if ids.len() == 1 {
        lemma_split_newlines_append(Seq::empty(), ids[0]);
        assert(Seq::<char>::empty() + ids[0] =~= ids[0]);
        assert(split_newlines(Seq::<char>::empty()).update(0, Seq::<char>::empty() + ids[0])
            =~= ids);
    } else {
        let front = ids.drop_last();
        lemma_split_newlines_of_join(front);
        let j = join(front, seq!['\n']);
        let jn = j + seq!['\n'];
        assert(jn.drop_last() =~= j);
        assert(split_newlines(jn) == front.push(Seq::empty()));
        lemma_split_newlines_append(jn, ids.last());
        assert(front.push(Seq::empty()).update(front.len() as int, Seq::<char>::empty()
            + ids.last()) =~= ids);
    }
}

/// Reading back the lines of strings joined with newlines gives the strings,
/// when none of them holds a newline, none but the last ends in a carriage
/// return, and the last one is not empty.
pub proof fn lemma_lines_of_join(ids: Seq<Seq<char>>)
    requires
        forall|i: int| 0 <= i < ids.len() ==> no_newline(#[trigger] ids[i]),
        forall|i: int| 0 <= i < ids.len() - 1 ==> strip_cr(#[trigger] ids[i]) == ids[i],
        ids.len() > 0 ==> ids.last().len() > 0,
    ensures
        lines(join(ids, seq!['\n'])) == ids,
{
    if ids.len() == 0 {
        assert(join(ids, seq!['\n']) =~= Seq::<char>::empty());
        let pieces = split_newlines(Seq::<char>::empty());
        assert(pieces.drop_last().map_values(|p: Seq<char>| strip_cr(p)) =~= ids);
    } else {
        lemma_split_newlines_of_join(ids);
        assert(ids.drop_last().map_values(|p: Seq<char>| strip_cr(p)).push(ids.last()) =~= ids);
    }
}

proof fn lemma_join_split_at(ids: Seq<Seq<char>>, sep: Seq<char>, m: int)
    requires
        1 <= m < ids.len(),
    ensures
        join(ids, sep) == join(ids.take(m), sep) + sep + join(ids.skip(m), sep),
    decreases ids.len(),
{
    let front = ids.drop_last();
    if m == ids.len() - 1 {
        assert(front =~= ids.take(m));
        assert(ids.skip(m) =~= seq![ids.last()]);
    } else {
        lemma_join_split_at(front, sep, m);
        assert(front.take(m) =~= ids.take(m));
        assert(front.skip(m) =~= ids.skip(m).drop_last());
        assert(ids.skip(m).last() == ids.last());
        assert(join(ids, sep) =~= join(ids.take(m), sep) + sep + join(ids.skip(m), sep));
    }
}

proof fn lemma_split_newlines_keeps_front(p: Seq<char>, y: Seq<char>)
    ensures
        split_newlines(p + y).len() >= split_newlines(p).len(),
        forall|k: int|
            0 <= k < split_newlines(p).len() - 1 ==> #[trigger] split_newlines(p + y)[k]
                == split_newlines(p)[k],
    decreases y.len(),
{
    lemma_split_newlines_len(p);
    if y.len() == 0 {
        assert(p + y =~= p);
    } else {
        let y0 = y.drop_last();
        lemma_split_newlines_keeps_front(p, y0);
        lemma_split_newlines_len(p + y0);
        assert((p + y).drop_last() =~= p + y0);
    }
}

/// The line at index `i` of strings joined with newlines is the string at
/// index `i`, when none of the strings up to it holds a newline, and it
/// does not end in a carriage return unless it is the last, nor is empty
/// if it is the last.
pub proof fn lemma_line_of_join(ids: Seq<Seq<char>>, i: int)
    requires
        0 <= i < ids.len(),
        forall|j: int| 0 <= j <= i ==> no_newline(#[trigger] ids[j]),
        i < ids.len() - 1 ==> strip_cr(ids[i]) == ids[i],
        i == ids.len() - 1 ==> ids[i].len() > 0,
    ensures
        lines(join(ids, seq!['\n'])).len() > i,
        lines(join(ids, seq!['\n']))[i] == ids[i],
{
    let nl = seq!['\n'];
    let full = join(ids, nl);
    if i == ids.len() - 1 {
        lemma_split_newlines_of_join(ids);
        assert(ids.drop_last().map_values(|p: Seq<char>| strip_cr(p)).push(ids.last())[i]
            == ids[i]);
    } else {
        let pre = ids.take(i + 1);
        let x = join(pre, nl);
        let y = join(ids.skip(i + 1), nl);
        lemma_join_split_at(ids, nl, i + 1);
        assert(forall|j: int| 0 <= j < pre.len() ==> no_newline(#[trigger] pre[j])) by {
            assert forall|j: int| 0 <= j < pre.len() implies no_newline(#[trigger] pre[j]) by {
                assert(pre[j] == ids[j]);
            }
        }
        lemma_split_newlines_of_join(pre);
        let xn = x + nl;
        assert(xn.drop_last() =~= x);
        assert(split_newlines(xn) == pre.push(Seq::empty()));
        assert(full =~= xn + y);
        lemma_split_newlines_keeps_front(xn, y);
        let pieces = split_newlines(full);
        assert(pieces[i] == pre[i]);
        assert(pieces.len() >= i + 2);
        let ended = pieces.drop_last().map_values(|p: Seq<char>| strip_cr(p));
        assert(ended[i] == strip_cr(pieces[i]));
        assert(lines(full).len() >= ended.len());
        assert(lines(full)[i] == ended[i]);
    }
}

/// `s` followed by spaces up to `width` characters, as `{:<width}` pads.
pub open spec fn pad_right(s: Seq<char>, width: nat) -> Seq<char> {
    if s.len() >= width {
        s
    } else {
        s + Seq::new((width - s.len()) as nat, |i: int| ' ')
    }
}

/// Pads `s` with spaces on the right to at least `width` characters.
pub fn pad_right_str(s: &str, width: usize) -> (r: String)
    ensures
        r@ == pad_right(s@, width as nat),
{
    let n = s.unicode_len();
    let mut r = String::from_str(s);
    let mut k: usize = n;
    while k < width
        invariant
            n == s@.len(),
            k == n || (n < k && k <= width),
            r@ == s@ + Seq::new((k - n) as nat, |i: int| ' '),
        decreases width - k,
    {
        r.append(" ");
        proof {
            reveal_strlit(" ");
            assert(r@ =~= s@ + Seq::new((k + 1 - n) as nat, |i: int| ' '));
        }
        k = k + 1;
    }
    proof {
        if n >= width {
            assert(r@ =~= s@);
        } else {
            assert(r@ =~= s@ + Seq::new((width - n) as nat, |i: int| ' '));
        }
    }
    r
}


pub assume_specification[ String::push ](s: &mut String, ch: char)
    ensures
        final(s)@ == old(s)@.push(ch),
;

/// The character of the decimal digit `d`.
pub open spec fn digit_char(d: nat) -> char {
    (('0' as u32) + d) as char
}

/// The decimal representation of `n`, without leading zeros.
pub open spec fn nat_decimal(n: nat) -> Seq<char>
    decreases n,
{
    if n < 10 {
        seq![digit_char(n)]
    } else {
        nat_decimal(n / 10).push(digit_char(n % 10))
    }
}

/// The decimal representation of `n`, with a minus sign when it is negative,
/// as `Display` writes integers.
pub open spec fn int_decimal(n: int) -> Seq<char> {
    if n < 0 {
        seq!['-'] + nat_decimal((-n) as nat)
    } else {
        nat_decimal(n as nat)
    }
}

fn push_decimal(s: &mut String, n: u64)
    ensures
        final(s)@ == old(s)@ + nat_decimal(n as nat),
    decreases n,
{
    if n >= 10 {
        push_decimal(s, n / 10);
    }
    let d = (n % 10) as u8;
    let c = (48u8 + d) as char;
    assert(c == digit_char((n % 10) as nat));
    s.push(c);
    assert(s@ =~= old(s)@ + nat_decimal(n as nat));
}

/// Writes `n` in decimal, as `i32::to_string` does.
pub fn i32_to_decimal(n: i32) -> (r: String)
    ensures
        r@ == int_decimal(n as int),
{
    let mut r = String::new();
    let wide = n as i64;
    if wide < 0 {
        r.append("-");
        proof {
            reveal_strlit("-");
        }
        push_decimal(&mut r, (-wide) as u64);
    } else {
        push_decimal(&mut r, wide as u64);
    }
    proof {
        if wide < 0 {
            assert(r@ =~= seq!['-'] + nat_decimal((-n) as nat));
        } else {
            assert(r@ =~= nat_decimal(n as nat));
        }
    }
    r
}

/// Writes `n` in decimal, as `usize::to_string` does.
pub fn usize_to_decimal(n: usize) -> (r: String)
    ensures
        r@ == nat_decimal(n as nat),
{
    let mut r = String::new();
    push_decimal(&mut r, n as u64);
    assert(r@ =~= nat_decimal(n as nat));
    r
}

/// The number a run of decimal digits stands for.
pub open spec fn digits_value(s: Seq<char>) -> int
    decreases s.len(),
{
    if s.len() == 0 {
        0
    } else {
        digits_value(s.drop_last()) * 10 + (s.last() as int - '0' as int)
    }
}

/// Whether `c` is one of the ASCII digits.
pub open spec fn is_digit(c: char) -> bool {
    '0' <= c <= '9'
}

/// The decimal text of a number is made of digits only, starts with a digit
/// other than zero unless the number is zero, and reads back as the number.
pub proof fn lemma_decimal_reads_back(n: nat)
    ensures
        nat_decimal(n).len() > 0,
        forall|i: int| 0 <= i < nat_decimal(n).len() ==> is_digit(#[trigger] nat_decimal(n)[i]),
        n > 0 ==> nat_decimal(n)[0] != '0',
        digits_value(nat_decimal(n)) == n,
    decreases n,
{
    if n >= 10 {
        lemma_decimal_reads_back(n / 10);
        let front = nat_decimal(n / 10);
        let whole = nat_decimal(n);
        assert(whole.drop_last() =~= front);
        assert(whole[0] == front[0]);
        assert forall|i: int| 0 <= i < whole.len() implies is_digit(#[trigger] whole[i]) by {
            if i < front.len() {
                assert(whole[i] == front[i]);
            }
        }
        assert(whole.last() == digit_char(n % 10));
        assert(digit_char(n % 10) as int == 48 + n % 10);
        assert(digits_value(whole) == digits_value(front) * 10 + (n % 10));
    } else {
        let whole = nat_decimal(n);
        assert(whole.drop_last() =~= Seq::<char>::empty());
        assert(digit_char(n) as int == 48 + n);
        assert(digits_value(whole.drop_last()) == 0);
        assert(whole.last() == digit_char(n));
    }
}

/// Padding keeps the text in front, adds only spaces behind it, and gives
/// the width, or the text's own length where that is longer.
pub proof fn lemma_pad_right(s: Seq<char>, width: nat)
    ensures
        pad_right(s, width).len() == if s.len() >= width {
            s.len() as int
        } else {
            width as int
        },
        pad_right(s, width).take(s.len() as int) == s,
        forall|i: int| s.len() <= i < pad_right(s, width).len() ==> #[trigger] pad_right(s, width)[i] == ' ',
{
    assert(pad_right(s, width).take(s.len() as int) =~= s);
}

} // verus!
