//! Article blocks for the center chat: a small markdown-ish block and inline
//! reader.

use vstd::prelude::*;
use crate::text::{
    append_vec, chars_of, find_sub, join_s, join_vecs, lines_of, lines_s, occurs_at,
    starts_with_s, starts_with_str, string_of, sub_vec, trim_end_s, trim_end_vec, trim_s,
    trim_start_s, trim_start_vec, trim_vec, views, contains_s,
};

verus! {

/// One block in an article.
#[derive(Debug, Clone, PartialEq, Eq)]
pub enum ArticleBlock {
    Heading { level: u8, text: String },
    Paragraph(String),
    Bullet(String),
    Numbered { n: u32, text: String },
    Quote(String),
    Fence { lang: String, body: String },
}

/// Inline run inside a paragraph or heading.
#[derive(Debug, Clone, PartialEq, Eq)]
pub enum InlineSpan {
    Text(String),
    Code(String),
    Strong(String),
}

/// A block as plain values.
pub enum BlockV {
    Heading { level: u8, text: Seq<char> },
    Paragraph(Seq<char>),
    Bullet(Seq<char>),
    Numbered { n: u32, text: Seq<char> },
    Quote(Seq<char>),
    Fence { lang: Seq<char>, body: Seq<char> },
}

pub enum SpanV {
    Text(Seq<char>),
    Code(Seq<char>),
    Strong(Seq<char>),
}

pub open spec fn block_view(b: ArticleBlock) -> BlockV {
    match b {
        ArticleBlock::Heading { level, text } => BlockV::Heading { level, text: text@ },
        ArticleBlock::Paragraph(t) => BlockV::Paragraph(t@),
        ArticleBlock::Bullet(t) => BlockV::Bullet(t@),
        ArticleBlock::Numbered { n, text } => BlockV::Numbered { n, text: text@ },
        ArticleBlock::Quote(t) => BlockV::Quote(t@),
        ArticleBlock::Fence { lang, body } => BlockV::Fence { lang: lang@, body: body@ },
    }
}

pub open spec fn block_views(v: Seq<ArticleBlock>) -> Seq<BlockV> {
    v.map_values(|b: ArticleBlock| block_view(b))
}

pub open spec fn span_view(s: InlineSpan) -> SpanV {
    match s {
        InlineSpan::Text(t) => SpanV::Text(t@),
        InlineSpan::Code(t) => SpanV::Code(t@),
        InlineSpan::Strong(t) => SpanV::Strong(t@),
    }
}

pub open spec fn span_views(v: Seq<InlineSpan>) -> Seq<SpanV> {
    v.map_values(|s: InlineSpan| span_view(s))
}

// ---------------------------------------------------------------------------
// Line classifiers
// ---------------------------------------------------------------------------

/// Number of leading `#` of `t`, at most 3.
pub open spec fn hashes(t: Seq<char>) -> int {
    if t.len() > 0 && t[0] == '#' {
        if t.len() > 1 && t[1] == '#' {
            if t.len() > 2 && t[2] == '#' {
                3
            } else {
                2
            }
        } else {
            1
        }
    } else {
        0
    }
}

pub open spec fn heading_of(line: Seq<char>) -> Option<(u8, Seq<char>)> {
    let t = trim_start_s(line);
    let n = hashes(t);
    if n == 0 {
        None
    } else {
        let rest = trim_s(t.skip(n));
        if rest.len() == 0 {
            None
        } else {
            Some((n as u8, rest))
        }
    }
}

pub open spec fn bullet_of(line: Seq<char>) -> Option<Seq<char>> {
    let t = trim_start_s(line);
    if starts_with_s(t, "- "@) || starts_with_s(t, "* "@) {
        Some(t.skip(2))
    } else {
        None
    }
}

pub open spec fn digit_seq(s: Seq<char>) -> bool {
    forall|i: int| 0 <= i < s.len() ==> '0' <= #[trigger] s[i] <= '9'
}

/// Decimal value of a digit string.
pub open spec fn dec_value(s: Seq<char>) -> nat
    decreases s.len(),
{
    if s.len() == 0 {
        0
    } else {
        dec_value(s.drop_last()) * 10 + ((s.last() as u32) - ('0' as u32)) as nat
    }
}

/// `str::parse::<u32>`: an optional `+`, then at least one digit, in range.
pub open spec fn parse_u32_spec(s: Seq<char>) -> Option<u32> {
    let b = if s.len() > 0 && s[0] == '+' {
        s.skip(1)
    } else {
        s
    };
    if b.len() == 0 || !digit_seq(b) || dec_value(b) > u32::MAX {
        None
    } else {
        Some(dec_value(b) as u32)
    }
}

/// First occurrence of `p` in `s`, or -1.
pub open spec fn first_occ(s: Seq<char>, p: Seq<char>) -> int {
    if exists|i: int| occurs_at(s, p, i) {
        choose|i: int| occurs_at(s, p, i) && forall|j: int| 0 <= j < i ==> !occurs_at(s, p, j)
    } else {
        -1
    }
}

pub open spec fn numbered_of(line: Seq<char>) -> Option<(u32, Seq<char>)> {
    let t = trim_start_s(line);
    let k = first_occ(t, ". "@);
    if k < 0 {
        None
    } else {
        match parse_u32_spec(t.take(k)) {
            Some(n) => if n == 0 {
                None
            } else {
                Some((n, t.skip(k + 2)))
            },
            None => None,
        }
    }
}

// ---------------------------------------------------------------------------
// Block reader
// ---------------------------------------------------------------------------

/// Reader state: blocks so far, pending paragraph lines, and an open fence
/// (language, body).
pub struct AState {
    pub out: Seq<BlockV>,
    pub para: Seq<Seq<char>>,
    pub fence: Option<(Seq<char>, Seq<char>)>,
}

/// Emit the pending paragraph (its lines joined by spaces) unless blank.
pub open spec fn flush_para(para: Seq<Seq<char>>, out: Seq<BlockV>) -> Seq<BlockV> {
    if para.len() == 0 {
        out
    } else {
        let text = join_s(para, " "@);
        if trim_s(text).len() == 0 {
            out
        } else {
            out.push(BlockV::Paragraph(text))
        }
    }
}

/// The block a non-blank, right-trimmed line starts, if it is not paragraph
/// text.
pub open spec fn classify(trimmed: Seq<char>) -> Option<BlockV> {
    match heading_of(trimmed) {
        Some((lv, t)) => Some(BlockV::Heading { level: lv, text: t }),
        None => if starts_with_s(trimmed, "> "@) {
            Some(BlockV::Quote(trimmed.skip(2)))
        } else {
            match bullet_of(trimmed) {
                Some(t) => Some(BlockV::Bullet(t)),
                None => match numbered_of(trimmed) {
                    Some((n, t)) => Some(BlockV::Numbered { n, text: t }),
                    None => None,
                },
            }
        },
    }
}

pub open spec fn astep(st: AState, line: Seq<char>) -> AState {
    match st.fence {
        Some((lang, body)) => if starts_with_s(line, "```"@) {
            AState { out: st.out.push(BlockV::Fence { lang, body }), fence: None, ..st }
        } else {
            AState {
                fence: Some(
                    (
                        lang,
                        if body.len() == 0 {
                            line
                        } else {
                            body + seq!['\n'] + line
                        },
                    ),
                ),
                ..st
            }
        },
        None => if starts_with_s(line, "```"@) {
            AState {
                out: flush_para(st.para, st.out),
                para: Seq::empty(),
                fence: Some((trim_s(line.skip(3)), Seq::empty())),
            }
        } else {
            let trimmed = trim_end_s(line);
            if trimmed.len() == 0 {
                AState { out: flush_para(st.para, st.out), para: Seq::empty(), fence: None }
            } else {
                let b = classify(trimmed);
                match b {
                    Some(blk) => AState {
                        out: flush_para(st.para, st.out).push(blk),
                        para: Seq::empty(),
                        fence: None,
                    },
                    None => AState { para: st.para.push(trim_s(trimmed)), ..st },
                }
            }
        },
    }
}

pub open spec fn afold(lines: Seq<Seq<char>>, n: int) -> AState
    decreases n,
{
    if n <= 0 || n > lines.len() {
        AState { out: Seq::empty(), para: Seq::empty(), fence: None }
    } else {
        astep(afold(lines, n - 1), lines[n - 1])
    }
}

/// `parse_article`: the blocks of `src`; a non-blank text that yields none
/// becomes one paragraph.
pub open spec fn article_spec(src: Seq<char>) -> Seq<BlockV> {
    let st = afold(lines_s(src), lines_s(src).len() as int);
    let out1 = match st.fence {
        Some((lang, body)) => st.out.push(BlockV::Fence { lang, body }),
        None => st.out,
    };
    let out2 = flush_para(st.para, out1);
    if out2.len() == 0 && trim_s(src).len() != 0 {
        seq![BlockV::Paragraph(trim_s(src))]
    } else {
        out2
    }
}

fn heading_text(line: &Vec<char>) -> (r: Option<(u8, Vec<char>)>)
    ensures
        match r {
            Some((lv, t)) => heading_of(line@) == Some((lv, t@)),
            None => heading_of(line@) is None,
        },
{
    let t = trim_start_vec(line);
    let n: usize = if t.len() > 0 && t[0] == '#' {
        if t.len() > 1 && t[1] == '#' {
            if t.len() > 2 && t[2] == '#' {
                3
            } else {
                2
            }
        } else {
            1
        }
    } else {
        0
    };
    if n == 0 {
        return None;
    }
    let tail = sub_vec(&t, n, t.len());
    assert(tail@ =~= t@.skip(n as int));
    let rest = trim_vec(&tail);
    if rest.len() == 0 {
        return None;
    }
    Some((n as u8, rest))
}

fn bullet_text(line: &Vec<char>) -> (r: Option<Vec<char>>)
    ensures
        match r {
            Some(t) => bullet_of(line@) == Some(t@),
            None => bullet_of(line@) is None,
        },
{
    let t = trim_start_vec(line);
    if starts_with_str(&t, "- ") || starts_with_str(&t, "* ") {
        proof {
            reveal_strlit("- ");
            reveal_strlit("* ");
        }
        let r = sub_vec(&t, 2, t.len());
        assert(r@ =~= t@.skip(2));
        Some(r)
    } else {
        None
    }
}

proof fn lemma_dec_value_mono(s: Seq<char>, i: int)
    requires
        0 <= i <= s.len(),
        digit_seq(s),
    ensures
        dec_value(s.take(i)) <= dec_value(s),
    decreases s.len() - i,
{
    if i < s.len() {
        lemma_dec_value_mono(s, i + 1);
        assert(s.take(i + 1).drop_last() =~= s.take(i));
    } else {
        assert(s.take(i) =~= s);
    }
}

fn parse_u32(s: &Vec<char>) -> (r: Option<u32>)
    ensures
        r == parse_u32_spec(s@),
{
    let start: usize = if s.len() > 0 && s[0] == '+' {
        1
    } else {
        0
    };
    let b = sub_vec(s, start, s.len());
    assert(b@ =~= (if s@.len() > 0 && s@[0] == '+' {
        s@.skip(1)
    } else {
        s@
    }));
    let ghost bs = if s@.len() > 0 && s@[0] == '+' {
        s@.skip(1)
    } else {
        s@
    };
    if b.len() == 0 {
        return None;
    }
    let mut i: usize = 0;
    while i < b.len()
        invariant
            i <= b.len(),
            b@ == bs,
            bs == (if s@.len() > 0 && s@[0] == '+' {
                s@.skip(1)
            } else {
                s@
            }),
            forall|k: int| 0 <= k < i ==> '0' <= #[trigger] b@[k] <= '9',
        decreases b.len() - i,
    {
        if !('0' <= b[i] && b[i] <= '9') {
            assert(!('0' <= b@[i as int] <= '9'));
            return None;
        }
        i = i + 1;
    }
    let mut v: u64 = 0;
    let mut j: usize = 0;
    while j < b.len()
        invariant
            j <= b.len(),
            b@ == bs,
            bs == (if s@.len() > 0 && s@[0] == '+' {
                s@.skip(1)
            } else {
                s@
            }),
            b.len() > 0,
            digit_seq(b@),
            v == dec_value(b@.take(j as int)),
            v <= u32::MAX,
        decreases b.len() - j,
    {
        assert(b@.take(j + 1).drop_last() =~= b@.take(j as int));
        let d = (b[j] as u32 - '0' as u32) as u64;
        v = v * 10 + d;
        j = j + 1;
        if v > u32::MAX as u64 {
            proof {
                lemma_dec_value_mono(b@, j as int);
            }
            return None;
        }
    }
    assert(b@.take(b.len() as int) =~= b@);
    Some(v as u32)
}

fn numbered_text(line: &Vec<char>) -> (r: Option<(u32, Vec<char>)>)
    ensures
        match r {
            Some((n, t)) => numbered_of(line@) == Some((n, t@)),
            None => numbered_of(line@) is None,
        },
{
    let t = trim_start_vec(line);
    let sep = chars_of(". ");
    match find_sub(&t, &sep) {
        None => {
            assert(first_occ(t@, ". "@) == -1);
            None
        },
        Some(k) => {
            proof {
                let w = choose|i: int|
                    occurs_at(t@, ". "@, i) && forall|j: int| 0 <= j < i ==> !occurs_at(t@, ". "@, j);
                if w != k as int {
                    if w < k {
                        assert(!occurs_at(t@, ". "@, w));
                    } else {
                        assert(!occurs_at(t@, ". "@, k as int));
                    }
                }
                assert(first_occ(t@, ". "@) == k as int);
                reveal_strlit(". ");
            }
            let num = sub_vec(&t, 0, k);
            assert(num@ =~= t@.take(k as int));
            match parse_u32(&num) {
                Some(n) => {
                    if n == 0 {
                        None
                    } else {
                        let rest = sub_vec(&t, k + 2, t.len());
                        assert(rest@ =~= t@.skip(k + 2));
                        Some((n, rest))
                    }
                },
                None => None,
            }
        },
    }
}

fn classify_line(trimmed: &Vec<char>) -> (r: Option<ArticleBlock>)
    ensures
        match r {
            Some(b) => classify(trimmed@) == Some(block_view(b)),
            None => classify(trimmed@) is None,
        },
{
    match heading_text(trimmed) {
        Some((lv, t)) => Some(ArticleBlock::Heading { level: lv, text: string_of(&t) }),
        None => if starts_with_str(trimmed, "> ") {
            proof {
                reveal_strlit("> ");
            }
            let q = sub_vec(trimmed, 2, trimmed.len());
            assert(q@ =~= trimmed@.skip(2));
            Some(ArticleBlock::Quote(string_of(&q)))
        } else {
            match bullet_text(trimmed) {
                Some(t) => Some(ArticleBlock::Bullet(string_of(&t))),
                None => match numbered_text(trimmed) {
                    Some((n, t)) => Some(ArticleBlock::Numbered { n, text: string_of(&t) }),
                    None => None,
                },
            }
        },
    }
}

struct Reader {
    out: Vec<ArticleBlock>,
    para: Vec<Vec<char>>,
    in_fence: bool,
    lang: Vec<char>,
    body: Vec<char>,
}

impl Reader {
    spec fn state(&self) -> AState {
        AState {
            out: block_views(self.out@),
            para: views(self.para@),
            fence: if self.in_fence {
                Some((self.lang@, self.body@))
            } else {
                None
            },
        }
    }

    fn push_block(&mut self, b: ArticleBlock)
        ensures
            block_views(final(self).out@) == block_views(old(self).out@).push(block_view(b)),
            final(self).para@ == old(self).para@,
            final(self).in_fence == old(self).in_fence,
            final(self).lang@ == old(self).lang@,
            final(self).body@ == old(self).body@,
    {
        self.out.push(b);
        assert(block_views(self.out@) =~= block_views(old(self).out@).push(block_view(b)));
    }

    fn flush(&mut self)
        ensures
            block_views(final(self).out@) == flush_para(views(old(self).para@), block_views(
                old(self).out@,
            )),
            final(self).para@.len() == 0,
            final(self).in_fence == old(self).in_fence,
            final(self).lang@ == old(self).lang@,
            final(self).body@ == old(self).body@,
    {
        if self.para.len() == 0 {
            return;
        }
        let sep = chars_of(" ");
        let text = join_vecs(&self.para, &sep);
        self.para = Vec::new();
        let tt = trim_vec(&text);
        if tt.len() != 0 {
            self.push_block(ArticleBlock::Paragraph(string_of(&text)));
        }
    }

    fn feed_fence(&mut self, line: &Vec<char>)
        requires
            old(self).in_fence,
        ensures
            final(self).state() == astep(old(self).state(), line@),
    {
        if starts_with_str(line, "```") {
            let lang = string_of(&self.lang);
            let body = string_of(&self.body);
            self.push_block(ArticleBlock::Fence { lang, body });
            self.in_fence = false;
        } else {
            let ghost b0 = self.body@;
            if self.body.len() != 0 {
                self.body.push('\n');
            }
            append_vec(&mut self.body, line);
            assert(self.body@ =~= (if b0.len() == 0 {
                line@
            } else {
                b0 + seq!['\n'] + line@
            }));
        }
    }

    fn feed(&mut self, line: &Vec<char>)
        ensures
            final(self).state() == astep(old(self).state(), line@),
    {
        if self.in_fence {
            self.feed_fence(line);
            return;
        }
        if starts_with_str(line, "```") {
            self.flush();
            proof {
                reveal_strlit("```");
            }
            let rest = sub_vec(line, 3, line.len());
            assert(rest@ =~= line@.skip(3));
            self.lang = trim_vec(&rest);
            self.body = Vec::new();
            self.in_fence = true;
            assert(views(self.para@) =~= Seq::<Seq<char>>::empty());
            return;
        }
        let trimmed = trim_end_vec(line);
        if trimmed.len() == 0 {
            self.flush();
            assert(views(self.para@) =~= Seq::<Seq<char>>::empty());
            return;
        }
        let blk = classify_line(&trimmed);
        match blk {
            Some(b) => {
                self.flush();
                self.push_block(b);
                assert(views(self.para@) =~= Seq::<Seq<char>>::empty());
            },
            None => {
                let p = trim_vec(&trimmed);
                let ghost before = self.para@;
                self.para.push(p);
                assert(views(self.para@) =~= views(before).push(p@));
            },
        }
    }
}

/// Split markdown-ish text into article blocks.
pub fn parse_article(src: &str) -> (r: Vec<ArticleBlock>)
    ensures
        block_views(r@) == article_spec(src@),
{
    let s = chars_of(src);
    let lines = lines_of(&s);
    let mut rd = Reader {
        out: Vec::new(),
        para: Vec::new(),
        in_fence: false,
        lang: Vec::new(),
        body: Vec::new(),
    };
    assert(rd.state() == afold(lines_s(src@), 0)) by {
        assert(block_views(rd.out@) =~= Seq::<BlockV>::empty());
        assert(views(rd.para@) =~= Seq::<Seq<char>>::empty());
    }
    let mut i: usize = 0;
    while i < lines.len()
        invariant
            i <= lines.len(),
            views(lines@) == lines_s(src@),
            rd.state() == afold(lines_s(src@), i as int),
        decreases lines.len() - i,
    {
        assert(views(lines@)[i as int] == lines@[i as int]@);
        rd.feed(&lines[i]);
        i = i + 1;
    }
    if rd.in_fence {
        let lang = string_of(&rd.lang);
        let body = string_of(&rd.body);
        rd.push_block(ArticleBlock::Fence { lang, body });
        rd.in_fence = false;
    }
    rd.flush();
    let mut out = rd.out;
    if out.len() == 0 {
        let t = trim_vec(&s);
        if t.len() != 0 {
            out.push(ArticleBlock::Paragraph(string_of(&t)));
            assert(block_views(out@) =~= seq![BlockV::Paragraph(trim_s(src@))]);
        }
    }
    out
}

// ---------------------------------------------------------------------------
// Inline spans
// ---------------------------------------------------------------------------

/// First index at or after `k` holding `ch`, or -1.
pub open spec fn first_char_from(c: Seq<char>, ch: char, k: int) -> int
    decreases c.len() - k,
{
    if k < 0 || k >= c.len() {
        -1
    } else if c[k] == ch {
        k
    } else {
        first_char_from(c, ch, k + 1)
    }
}

/// First index at or after `k` starting `**`, or -1.
pub open spec fn first_pair_from(c: Seq<char>, k: int) -> int
    decreases c.len() - k,
{
    if k < 0 || k + 1 >= c.len() {
        -1
    } else if c[k] == '*' && c[k + 1] == '*' {
        k
    } else {
        first_pair_from(c, k + 1)
    }
}

pub open spec fn flush_text(buf: Seq<char>, out: Seq<SpanV>) -> Seq<SpanV> {
    if buf.len() == 0 {
        out
    } else {
        out.push(SpanV::Text(buf))
    }
}

pub proof fn lemma_first_char(c: Seq<char>, ch: char, k: int)
    requires
        0 <= k,
    ensures
        first_char_from(c, ch, k) == -1 || (k <= first_char_from(c, ch, k) < c.len() && c[first_char_from(c, ch, k)] == ch),
    decreases c.len() - k,
{
    if k < c.len() && c[k] != ch {
        lemma_first_char(c, ch, k + 1);
    }
}

pub proof fn lemma_first_pair(c: Seq<char>, k: int)
    requires
        0 <= k,
    ensures
        first_pair_from(c, k) == -1 || k <= first_pair_from(c, k) < c.len() - 1,
    decreases c.len() - k,
{
    if k + 1 < c.len() && !(c[k] == '*' && c[k + 1] == '*') {
        lemma_first_pair(c, k + 1);
    }
}

/// Spans of `c` from `i`, with pending text `buf` after the spans `out`.
pub open spec fn inl(c: Seq<char>, i: int, buf: Seq<char>, out: Seq<SpanV>) -> Seq<SpanV>
    decreases c.len() - i,
{
    if i < 0 || i >= c.len() {
        flush_text(buf, out)
    } else if c[i] == '`' && first_char_from(c, '`', i + 1) > i {
        let e = first_char_from(c, '`', i + 1);
        proof {
            lemma_first_char(c, '`', i + 1);
        }
        inl(c, e + 1, Seq::empty(), flush_text(buf, out).push(SpanV::Code(c.subrange(i + 1, e))))
    } else if c[i] == '*' && i + 1 < c.len() && c[i + 1] == '*' && first_pair_from(c, i + 2) > i {
        let p = first_pair_from(c, i + 2);
        proof {
            lemma_first_pair(c, i + 2);
        }
        inl(
            c,
            p + 2,
            Seq::empty(),
            flush_text(buf, out).push(SpanV::Strong(c.subrange(i + 2, p))),
        )
    } else {
        inl(c, i + 1, buf.push(c[i]), out)
    }
}

/// `parse_inlines`: `` `code` `` and `**strong**` runs between text runs;
/// a line with no runs at all is one text span.
pub open spec fn inlines_spec(src: Seq<char>) -> Seq<SpanV> {
    let r = inl(src, 0, Seq::empty(), Seq::empty());
    if r.len() == 0 {
        seq![SpanV::Text(src)]
    } else {
        r
    }
}

fn find_char_from(c: &Vec<char>, ch: char, k: usize) -> (r: Option<usize>)
    ensures
        match r {
            Some(j) => first_char_from(c@, ch, k as int) == j as int && k <= j < c.len(),
            None => first_char_from(c@, ch, k as int) == -1,
        },
{
    let mut j = k;
    while j < c.len()
        invariant
            k <= j,
            first_char_from(c@, ch, k as int) == first_char_from(c@, ch, j as int),
        decreases c.len() - j,
    {
        if c[j] == ch {
            return Some(j);
        }
        j = j + 1;
    }
    None
}

fn find_pair_from(c: &Vec<char>, k: usize) -> (r: Option<usize>)
    ensures
        match r {
            Some(j) => first_pair_from(c@, k as int) == j as int && k <= j && j + 1 < c.len(),
            None => first_pair_from(c@, k as int) == -1,
        },
{
    let mut j = k;
    while j < c.len() && j + 1 < c.len()
        invariant
            k <= j,
            first_pair_from(c@, k as int) == first_pair_from(c@, j as int),
        decreases c.len() - j,
    {
        if c[j] == '*' && c[j + 1] == '*' {
            return Some(j);
        }
        j = j + 1;
    }
    None
}

fn flush_buf(buf: &mut Vec<char>, out: &mut Vec<InlineSpan>)
    ensures
        span_views(final(out)@) == flush_text(old(buf)@, span_views(old(out)@)),
        final(buf)@.len() == 0,
{
    if buf.len() != 0 {
        let ghost before = out@;
        out.push(InlineSpan::Text(string_of(buf)));
        assert(span_views(out@) =~= span_views(before).push(SpanV::Text(old(buf)@)));
        *buf = Vec::new();
    }
}

/// Split `**bold**` and `` `code` `` out of a line.
pub fn parse_inlines(src: &str) -> (r: Vec<InlineSpan>)
    ensures
        span_views(r@) == inlines_spec(src@),
{
    let c = chars_of(src);
    let mut out: Vec<InlineSpan> = Vec::new();
    let mut buf: Vec<char> = Vec::new();
    let mut i: usize = 0;
    assert(span_views(out@) =~= Seq::<SpanV>::empty());
    while i < c.len()
        invariant
            i <= c.len(),
            c@ == src@,
            inl(c@, i as int, buf@, span_views(out@)) == inl(c@, 0, Seq::empty(), Seq::empty()),
        decreases c.len() - i,
    {
        if c[i] == '`' {
            match find_char_from(&c, '`', i + 1) {
                Some(e) => {
                    flush_buf(&mut buf, &mut out);
                    let code = sub_vec(&c, i + 1, e);
                    let ghost before = out@;
                    out.push(InlineSpan::Code(string_of(&code)));
                    assert(span_views(out@) =~= span_views(before).push(
                        SpanV::Code(c@.subrange(i + 1, e as int)),
                    ));
                    assert(buf@ =~= Seq::<char>::empty());
                    i = e + 1;
                    continue;
                },
                None => {},
            }
        }
        if c[i] == '*' && i + 1 < c.len() && c[i + 1] == '*' {
            match find_pair_from(&c, i + 2) {
                Some(p) => {
                    flush_buf(&mut buf, &mut out);
                    let strong = sub_vec(&c, i + 2, p);
                    let ghost before = out@;
                    out.push(InlineSpan::Strong(string_of(&strong)));
                    assert(span_views(out@) =~= span_views(before).push(
                        SpanV::Strong(c@.subrange(i + 2, p as int)),
                    ));
                    assert(buf@ =~= Seq::<char>::empty());
                    i = p + 2;
                    continue;
                },
                None => {},
            }
        }
        buf.push(c[i]);
        i = i + 1;
    }
    flush_buf(&mut buf, &mut out);
    if out.len() == 0 {
        out.push(InlineSpan::Text(src.to_owned()));
        assert(span_views(out@) =~= seq![SpanV::Text(src@)]);
    }
    out
}

} // verus!
