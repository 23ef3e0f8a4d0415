//! Text posts: the line, word and byte statistics of a body, and the kind of
//! post (a short note or an article) that follows from them.

use vstd::prelude::*;
use crate::strings::{split_on, chars_of};

verus! {

/// A new text post as it is submitted.
pub struct Text {
    pub title: String,
    pub body: String,
}

/// A change to the body of a text post.
pub struct UpdateText {
    pub PublicId: String,
    pub title: Option<String>,
    pub body: Option<String>,
}

/// A request to delete a text post.
pub struct DeleteText {
    pub PublicId: String,
}

/// Whether `c` is white space in the sense of `char::is_whitespace`
/// (the Unicode `White_Space` property).
pub open spec fn is_white_space(c: char) -> bool {
    let v = c as u32;
    (9 <= v <= 13) || v == 32 || v == 0x85 || v == 0xA0 || v == 0x1680 || (0x2000 <= v <= 0x200A)
        || v == 0x2028 || v == 0x2029 || v == 0x202F || v == 0x205F || v == 0x3000
}

/// The number of bytes of `c` in UTF-8.
pub open spec fn utf8_width(c: char) -> nat {
    let v = c as u32;
    if v < 0x80 { 1 } else if v < 0x800 { 2 } else if v < 0x10000 { 3 } else { 4 }
}

/// The number of bytes of a text in UTF-8.
pub open spec fn utf8_len(s: Seq<char>) -> nat
    decreases s.len(),
{
    if s.len() == 0 { 0 } else { utf8_len(s.drop_last()) + utf8_width(s.last()) }
}

/// The number of words of a text: maximal runs of characters that are not
/// white space, as `split_whitespace().count()` counts them.
pub open spec fn words_in(s: Seq<char>) -> nat
    decreases s.len(),
{
    if s.len() == 0 {
        0
    } else {
        let t = s.drop_last();
        words_in(t) + if !is_white_space(s.last()) && (t.len() == 0 || is_white_space(t.last())) {
            1nat
        } else {
            0nat
        }
    }
}

/// A line with its `\r` removed, for a line that ended in `\r\n`.
pub open spec fn strip_cr(l: Seq<char>) -> Seq<char> {
    if l.len() > 0 && l.last() == '\r' { l.drop_last() } else { l }
}

/// The lines that `str::lines` yields: the text is cut at each `\n`; a line
/// ended by `\r\n` loses its `\r`; an empty text after the last `\n` is no line.
pub open spec fn lines_of(s: Seq<char>) -> Seq<Seq<char>> {
    let parts = split_on(s, '\n');
    let ended = parts.drop_last().map_values(|l: Seq<char>| strip_cr(l));
    if parts.last().len() == 0 { ended } else { ended.push(parts.last()) }
}

/// The sum of the word counts of the lines.
pub open spec fn word_total(ls: Seq<Seq<char>>) -> nat
    decreases ls.len(),
{
    if ls.len() == 0 { 0 } else { word_total(ls.drop_last()) + words_in(ls.last()) }
}

/// The sum, over the lines, of each line's UTF-8 length plus one.
pub open spec fn char_total(ls: Seq<Seq<char>>) -> nat
    decreases ls.len(),
{
    if ls.len() == 0 { 0 } else { char_total(ls.drop_last()) + utf8_len(ls.last()) + 1 }
}

fn white_space(c: char) -> (b: bool)
    ensures
        b == is_white_space(c),
{
    let v = c as u32;
    (9 <= v && v <= 13) || v == 32 || v == 0x85 || v == 0xA0 || v == 0x1680 || (0x2000 <= v && v
        <= 0x200A) || v == 0x2028 || v == 0x2029 || v == 0x202F || v == 0x205F || v == 0x3000
}

fn width_of(c: char) -> (w: usize)
    ensures
        w == utf8_width(c),
{
    let v = c as u32;
    if v < 0x80 { 1 } else if v < 0x800 { 2 } else if v < 0x10000 { 3 } else { 4 }
}

proof fn lemma_words_le_len(s: Seq<char>)
    ensures
        words_in(s) <= utf8_len(s),
    decreases s.len(),
{
    if s.len() > 0 {
        lemma_words_le_len(s.drop_last());
    }
}

proof fn lemma_utf8_len_prefix(s: Seq<char>, i: int)
    requires
        0 <= i <= s.len(),
    ensures
        utf8_len(s.take(i)) <= utf8_len(s),
    decreases s.len() - i,
{
    if i < s.len() {
        lemma_utf8_len_prefix(s, i + 1);
        assert(s.take(i + 1).drop_last() =~= s.take(i));
    } else {
        assert(s.take(i) =~= s);
    }
}

proof fn lemma_strip_cr(l: Seq<char>)
    ensures
        words_in(strip_cr(l)) == words_in(l),
        utf8_len(strip_cr(l)) <= utf8_len(l),
        l.len() > 0 && l.last() == '\r' ==> utf8_len(strip_cr(l)) + 1 == utf8_len(l),
{
}

/// Counts the lines, words and bytes of a text: for each line of
/// `str::lines`, one line, its words, and its UTF-8 length plus one.
pub fn word_count(Text: String) -> (res: [i64; 3])
    requires
        utf8_len(Text@) < isize::MAX,
        lines_of(Text@).len() <= i32::MAX,
    ensures
        res[0] == lines_of(Text@).len(),
        res[1] == word_total(lines_of(Text@)),
        res[2] == char_total(lines_of(Text@)),
{
    let sv = chars_of(Text.as_str());
    let n: usize = sv.len();
    let mut lines: usize = 0;
    let mut words: usize = 0;
    let mut chars: usize = 0;
    // the line being read
    let mut cur_words: usize = 0;
    let mut cur_bytes: usize = 0;
    let mut cur_empty = true;
    let mut cur_last_ws = false;
    let mut cur_last_cr = false;
    let ghost mut cur: Seq<char> = Seq::empty();
    let mut i: usize = 0;
    assert(sv@.take(0) =~= Seq::<char>::empty());
    assert(split_on(sv@.take(0), '\n').drop_last() =~= Seq::<Seq<char>>::empty());
    while i < n
        invariant
            sv@ == Text@,
            n == sv@.len(),
            i <= n,
            utf8_len(Text@) < isize::MAX,
            ({
                let p = split_on(sv@.take(i as int), '\n');
                let ended = p.drop_last().map_values(|l: Seq<char>| strip_cr(l));
                &&& cur == p.last()
                &&& lines == ended.len()
                &&& words == word_total(ended)
                &&& chars == char_total(ended)
            }),
            cur_words == words_in(cur),
            cur_bytes == utf8_len(cur),
            cur_empty == (cur.len() == 0),
            cur.len() > 0 ==> cur_last_ws == is_white_space(cur.last()),
            cur.len() > 0 ==> cur_last_cr == (cur.last() == '\r'),
            lines <= chars,
            words <= chars,
            chars + cur_bytes <= utf8_len(sv@.take(i as int)),
        decreases n - i,
    {
        let c = sv[i];
        let ghost pre = sv@.take(i as int);
        let ghost p = split_on(pre, '\n');
        let ghost ended = p.drop_last().map_values(|l: Seq<char>| strip_cr(l));
        assert(sv@.take(i + 1).drop_last() =~= pre);
        assert(sv@.take(i + 1).last() == c);
        proof {
            crate::strings::lemma_split_nonempty(pre, '\n');
            lemma_words_le_len(cur);
            lemma_strip_cr(cur);
            assert(utf8_len(sv@.take(i + 1)) == utf8_len(pre) + utf8_width(c));
            lemma_utf8_len_prefix(sv@, i + 1);
        }
        if c == '\n' {
            let lw: usize = cur_words;
            let mut lb: usize = cur_bytes;
            if !cur_empty && cur_last_cr {
                lb = lb - 1;
            }
            lines = lines + 1;
            words = words + lw;
            chars = chars + lb + 1;
            proof {
                let np = p.push(Seq::<char>::empty());
                let nended = np.drop_last().map_values(|l: Seq<char>| strip_cr(l));
                assert(np.drop_last() =~= p);
                assert(p =~= p.drop_last().push(cur));
                assert(nended =~= ended.push(strip_cr(cur)));
                assert(nended.drop_last() =~= ended);
                cur = Seq::empty();
            }
            cur_words = 0;
            cur_bytes = 0;
            cur_empty = true;
            cur_last_ws = false;
            cur_last_cr = false;
        } else {
            let ws = white_space(c);
            if !ws && (cur_empty || cur_last_ws) {
                cur_words = cur_words + 1;
            }
            cur_bytes = cur_bytes + width_of(c);
            proof {
                let np = p.update(p.len() - 1, p.last().push(c));
                assert(np.drop_last() =~= p.drop_last());
                assert(cur.push(c).drop_last() =~= cur);
                cur = cur.push(c);
            }
            cur_empty = false;
            cur_last_ws = ws;
            cur_last_cr = c == '\r';
        }
        i = i + 1;
    }
    assert(sv@.take(n as int) =~= sv@);
    proof {
        lemma_words_le_len(cur);
    }
    if !cur_empty {
        lines = lines + 1;
        words = words + cur_words;
        chars = chars + cur_bytes + 1;
        proof {
            let p = split_on(sv@, '\n');
            let ended = p.drop_last().map_values(|l: Seq<char>| strip_cr(l));
            assert(ended.push(cur).drop_last() =~= ended);
        }
    }
    [lines as i64, words as i64, chars as i64]
}

/// A text that ends in a line ending has the same lines as the text without
/// it: adding `\n` to a text whose last character is neither `\n` nor `\r`
/// changes none of its lines, so none of its counts.
pub proof fn lemma_final_line_ending(s: Seq<char>)
    requires
        s.len() > 0,
        s.last() != '\n',
        s.last() != '\r',
    ensures
        lines_of(s.push('\n')) == lines_of(s),
        word_total(lines_of(s.push('\n'))) == word_total(lines_of(s)),
        char_total(lines_of(s.push('\n'))) == char_total(lines_of(s)),
{
    let p = split_on(s, '\n');
    let t = s.push('\n');
    assert(t.drop_last() =~= s);
    crate::strings::lemma_split_nonempty(s.drop_last(), '\n');
    let q = split_on(s.drop_last(), '\n');
    assert(p == q.update(q.len() - 1, q.last().push(s.last())));
    assert(p.last() == q.last().push(s.last()));
    assert(p.last().len() > 0);
    assert(strip_cr(p.last()) == p.last());
    let pt = split_on(t, '\n');
    assert(pt == p.push(Seq::<char>::empty()));
    assert(pt.drop_last() =~= p);
    let f = |l: Seq<char>| strip_cr(l);
    assert(p =~= p.drop_last().push(p.last()));
    assert(p.map_values(f) =~= p.drop_last().map_values(f).push(p.last()));
}

proof fn lemma_totals_concat(x: Seq<Seq<char>>, y: Seq<Seq<char>>)
    ensures
        word_total(x + y) == word_total(x) + word_total(y),
        char_total(x + y) == char_total(x) + char_total(y),
    decreases y.len(),
{
    if y.len() == 0 {
        assert(x + y =~= x);
    } else {
        lemma_totals_concat(x, y.drop_last());
        assert((x + y).drop_last() =~= x + y.drop_last());
    }
}

/// Two texts joined by a line ending count as much as the two apart: when
/// the first is not empty and ends in neither `\n` nor `\r`, the lines of
/// the joined text are the lines of the first followed by those of the
/// second, so its line, word and byte counts are the sums of theirs.
pub proof fn lemma_word_count_join(a: Seq<char>, b: Seq<char>)
    requires
        a.len() > 0,
        a.last() != '\n',
        a.last() != '\r',
    ensures
        lines_of(a + seq!['\n'] + b) == lines_of(a) + lines_of(b),
        lines_of(a + seq!['\n'] + b).len() == lines_of(a).len() + lines_of(b).len(),
        word_total(lines_of(a + seq!['\n'] + b)) == word_total(lines_of(a)) + word_total(lines_of(b)),
        char_total(lines_of(a + seq!['\n'] + b)) == char_total(lines_of(a)) + char_total(lines_of(b)),
{
    let t = a + seq!['\n'] + b;
    crate::strings::lemma_split_concat(a, '\n', b);
    let pa = split_on(a, '\n');
    let pb = split_on(b, '\n');
    crate::strings::lemma_split_nonempty(b, '\n');
    crate::strings::lemma_split_nonempty(a.drop_last(), '\n');
    let q = split_on(a.drop_last(), '\n');
    assert(pa == q.update(q.len() - 1, q.last().push(a.last())));
    assert(pa.last() == q.last().push(a.last()));
    assert(pa.last().len() > 0 && pa.last().last() == a.last());
    assert(strip_cr(pa.last()) == pa.last());
    let f = |l: Seq<char>| strip_cr(l);
    let pt = pa + pb;
    assert(pt.last() == pb.last());
    assert(pt.drop_last() =~= pa + pb.drop_last());
    assert(pa =~= pa.drop_last().push(pa.last()));
    assert(pa.map_values(f) =~= pa.drop_last().map_values(f).push(pa.last()));
    assert(lines_of(a) == pa.map_values(f));
    assert((pa + pb.drop_last()).map_values(f) =~= pa.map_values(f) + pb.drop_last().map_values(f));
    assert(lines_of(t) =~= lines_of(a) + lines_of(b));
    lemma_totals_concat(lines_of(a), lines_of(b));
}

/// The kind of a text post: a note up to 500 bytes, else an article.
pub open spec fn text_kind(characters: int) -> Seq<char> {
    if characters < 501 { "Note"@ } else { "Article"@ }
}

/// A text post is an article exactly when it has at least 501 bytes, and a
/// note exactly when it has fewer: more bytes never turn an article back into
/// a note.
pub proof fn lemma_text_kind_threshold(c1: int, c2: int)
    ensures
        (text_kind(c1) == "Article"@) == (c1 >= 501),
        (text_kind(c1) == "Note"@) == (c1 < 501),
        c1 <= c2 && text_kind(c1) == "Article"@ ==> text_kind(c2) == "Article"@,
{
    reveal_strlit("Note");
    reveal_strlit("Article");
    assert("Note"@.len() != "Article"@.len());
}

/// The kind of a text post with the given byte count.
pub fn text_media_type(characters: i64) -> (res: String)
    ensures
        res@ == text_kind(characters as int),
        res@ == (if characters >= 501 { "Article"@ } else { "Note"@ }),
{
    if characters < 501 {
        "Note".to_string()
    } else {
        "Article".to_string()
    }
}

/// A text post's details as they are stored: its title, body, kind and
/// statistics.
pub struct TextDetails {
    pub title: String,
    pub body: String,
    pub mediatype: String,
    pub lines: i64,
    pub words: i64,
    pub charcters: i64,
}

/// The stored details of a new text post: the statistics of its body, and
/// its kind by the byte count.
pub fn text_details(data: &Text) -> (res: TextDetails)
    requires
        utf8_len(data.body@) < isize::MAX,
        lines_of(data.body@).len() <= i32::MAX,
    ensures
        res.title@ == data.title@,
        res.body@ == data.body@,
        res.lines == lines_of(data.body@).len(),
        res.words == word_total(lines_of(data.body@)),
        res.charcters == char_total(lines_of(data.body@)),
        res.mediatype@ == text_kind(char_total(lines_of(data.body@)) as int),
        res.mediatype@ == (if res.charcters >= 501 { "Article"@ } else { "Note"@ }),
{
    let counts = word_count(data.body.clone());
    let mediatype = text_media_type(counts[2]);
    TextDetails {
        title: data.title.clone(),
        body: data.body.clone(),
        mediatype,
        lines: counts[0],
        words: counts[1],
        charcters: counts[2],
    }
}

/// The reply to a change of a text post's body.
pub fn update_text_reply(id: &str) -> (res: String)
    ensures
        res@ == id@ + " Has Been updated"@,
{
    let mut r = id.to_string();
    r.append(" Has Been updated");
    r
}

} // verus!
