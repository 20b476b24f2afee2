//! Article-number expressions such as `1,3-5,8`: a comma-separated list of
//! numbers and inclusive ascending ranges.
use vstd::prelude::*;

use crate::text::{
    chars_of, decimal, decimal_string, find, find_char, parse_usize, parse_usize_spec, slice_chars, split, split_chars,
    string_of, trim, trim_chars,
};

verus! {

/// One validated token of an expression: a number, or the inclusive range
/// `start..=end` with `start <= end`.
#[derive(Clone, Copy, Debug, PartialEq, Eq, Structural)]
pub enum SequencePart {
    Single(usize),
    Range(usize, usize),
}

/// The errors that reject an expression.
#[derive(Debug, PartialEq, Eq)]
pub enum SequenceParseError {
    /// A token without `-` that is not a number (e.g. `foo`).
    InvalidNumber(String),
    /// A token with `-` whose sides are not both numbers (e.g. `10-bar`, `-42`).
    InvalidRange(String),
    /// A range whose start is above its end (e.g. `20-10`).
    DescendingRange { start: usize, end: usize },
    /// An empty token, as in `1,,2` or an empty expression.
    EmptyPart,
}

/// What a `SequenceParseError` says, with its text as characters.
pub enum ParseErrorView {
    InvalidNumber(Seq<char>),
    InvalidRange(Seq<char>),
    DescendingRange { start: usize, end: usize },
    EmptyPart,
}

impl View for SequenceParseError {
    type V = ParseErrorView;

    open spec fn view(&self) -> ParseErrorView {
        match self {
            SequenceParseError::InvalidNumber(t) => ParseErrorView::InvalidNumber(t@),
            SequenceParseError::InvalidRange(t) => ParseErrorView::InvalidRange(t@),
            SequenceParseError::DescendingRange { start, end } => ParseErrorView::DescendingRange {
                start: *start,
                end: *end,
            },
            SequenceParseError::EmptyPart => ParseErrorView::EmptyPart,
        }
    }
}

impl SequenceParseError {
    /// A message for people.
    pub fn to_text(&self) -> (r: String)
        ensures
            r@ == match self@ {
                ParseErrorView::InvalidNumber(t) => "invalid number: '"@ + t + "'"@,
                ParseErrorView::InvalidRange(t) => "invalid range: '"@ + t + "'"@,
                ParseErrorView::DescendingRange { start, end } => "descending range not allowed: "@
                    + decimal(start as nat) + "-"@ + decimal(end as nat),
                ParseErrorView::EmptyPart => "empty part in sequence"@,
            },
    {
        match self {
            SequenceParseError::InvalidNumber(t) => {
                let mut r = String::from_str("invalid number: '");
                r.append(t.as_str());
                r.append("'");
                r
            },
            SequenceParseError::InvalidRange(t) => {
                let mut r = String::from_str("invalid range: '");
                r.append(t.as_str());
                r.append("'");
                r
            },
            SequenceParseError::DescendingRange { start, end } => {
                let mut r = String::from_str("descending range not allowed: ");
                r.append(decimal_string(*start).as_str());
                r.append("-");
                r.append(decimal_string(*end).as_str());
                r
            },
            SequenceParseError::EmptyPart => String::from_str("empty part in sequence"),
        }
    }
}

/// How one token `t` reads, once trimmed: empty, a range around its first
/// `-`, or a single number.
pub open spec fn token_spec(t: Seq<char>) -> Result<SequencePart, ParseErrorView> {
    let p = trim(t);
    if p.len() == 0 {
        Err(ParseErrorView::EmptyPart)
    } else {
        match find(p, '-') {
            Some(k) => {
                let a = parse_usize_spec(trim(p.subrange(0, k as int)));
                let b = parse_usize_spec(trim(p.subrange(k + 1 as int, p.len() as int)));
                if a is None || b is None {
                    Err(ParseErrorView::InvalidRange(p))
                } else if a->0 > b->0 {
                    Err(ParseErrorView::DescendingRange { start: a->0, end: b->0 })
                } else {
                    Ok(SequencePart::Range(a->0, b->0))
                }
            },
            None => match parse_usize_spec(p) {
                Some(n) => Ok(SequencePart::Single(n)),
                None => Err(ParseErrorView::InvalidNumber(p)),
            },
        }
    }
}

/// The tokens `ts` read in order; the first that fails decides the error.
pub open spec fn tokens_spec(ts: Seq<Seq<char>>) -> Result<Seq<SequencePart>, ParseErrorView>
    decreases ts.len(),
{
    if ts.len() == 0 {
        Ok(Seq::empty())
    } else {
        match token_spec(ts[0]) {
            Err(e) => Err(e),
            Ok(p) => match tokens_spec(ts.drop_first()) {
                Err(e) => Err(e),
                Ok(ps) => Ok(seq![p] + ps),
            },
        }
    }
}

/// How the expression `s` reads.
pub open spec fn parse_spec(s: Seq<char>) -> Result<Seq<SequencePart>, ParseErrorView> {
    tokens_spec(split(s, ','))
}

/// The numbers one part stands for, ascending.
pub open spec fn part_values(p: SequencePart) -> Seq<usize> {
    match p {
        SequencePart::Single(n) => seq![n],
        SequencePart::Range(a, b) => Seq::new((b - a + 1) as nat, |i: int| (a + i) as usize),
    }
}

/// The numbers that the parts `ps` stand for, part after part.
pub open spec fn expand(ps: Seq<SequencePart>) -> Seq<usize>
    decreases ps.len(),
{
    if ps.len() == 0 {
        Seq::empty()
    } else {
        part_values(ps[0]) + expand(ps.drop_first())
    }
}

/// A part that a token can give: a range never descends.
pub open spec fn part_ok(p: SequencePart) -> bool {
    match p {
        SequencePart::Single(_) => true,
        SequencePart::Range(a, b) => a <= b,
    }
}

/// A validated expression; its numbers are produced on demand.
pub struct ArticleSequence {
    parts: Vec<SequencePart>,
}

impl ArticleSequence {
    #[verifier::type_invariant]
    spec fn parts_ok(&self) -> bool {
        forall|i: int| 0 <= i < self.parts@.len() ==> part_ok(#[trigger] self.parts@[i])
    }

    /// The validated parts, in the order written.
    pub fn parts(&self) -> (r: Vec<SequencePart>)
        ensures
            r@ == self@,
    {
        self.parts.clone()
    }

    /// A cursor over the numbers of the expression, in order.
    pub fn iter(&self) -> (r: SequenceCursor)
        ensures
            r.remaining() == expand(self@),
    {
        proof {
            use_type_invariant(self);
        }
        let r = SequenceCursor { parts: self.parts.clone(), part: 0, offset: 0 };
        proof {
            if self.parts@.len() > 0 {
                lemma_part_values_len(self.parts@[0]);
                assert(part_values(self.parts@[0]).subrange(0, part_values(self.parts@[0]).len() as int)
                    =~= part_values(self.parts@[0]));
                assert(self.parts@.subrange(1, self.parts@.len() as int) =~= self.parts@.drop_first());
            }
        }
        r
    }

    /// All the numbers of the expression, in order.
    pub fn to_vec(&self) -> (r: Vec<usize>)
        ensures
            r@ == expand(self@),
    {
        let mut cur = self.iter();
        let mut r: Vec<usize> = Vec::new();
        loop
            invariant
                r@ + cur.remaining() == expand(self@),
            decreases cur.remaining().len(),
        {
            let ghost before = cur.remaining();
            match cur.next() {
                Some(n) => {
                    r.push(n);
                    assert(r@ + cur.remaining() =~= expand(self@)) by {
                        assert(before =~= seq![n] + cur.remaining());
                    }
                },
                None => {
                    assert(r@ =~= expand(self@));
                    return r;
                },
            }
        }
    }
}

/// Produces the numbers of an `ArticleSequence` one at a time.
pub struct SequenceCursor {
    parts: Vec<SequencePart>,
    part: usize,
    offset: usize,
}

proof fn lemma_part_values_len(p: SequencePart)
    requires
        part_ok(p),
    ensures
        part_values(p).len() > 0,
{
}

impl SequenceCursor {
    #[verifier::type_invariant]
    spec fn position_ok(&self) -> bool {
        &&& forall|i: int| 0 <= i < self.parts@.len() ==> part_ok(#[trigger] self.parts@[i])
        &&& self.part <= self.parts@.len()
        &&& self.part < self.parts@.len() ==> self.offset < part_values(
            self.parts@[self.part as int],
        ).len()
    }

    /// The numbers still to come, in order.
    pub closed spec fn remaining(&self) -> Seq<usize> {
        if self.part < self.parts@.len() {
            part_values(self.parts@[self.part as int]).subrange(
                self.offset as int,
                part_values(self.parts@[self.part as int]).len() as int,
            ) + expand(self.parts@.subrange(self.part + 1, self.parts@.len() as int))
        } else {
            Seq::empty()
        }
    }

    proof fn lemma_next_part(&self, k: int)
        requires
            self.position_ok(),
            k == self.part + 1,
            k <= self.parts@.len(),
        ensures
            expand(self.parts@.subrange(k, self.parts@.len() as int)) == (if k
                < self.parts@.len() {
                part_values(self.parts@[k]) + expand(
                    self.parts@.subrange(k + 1, self.parts@.len() as int),
                )
            } else {
                Seq::<usize>::empty()
            }),
    {
        let t = self.parts@.subrange(k, self.parts@.len() as int);
        if k < self.parts@.len() {
            assert(t.drop_first() =~= self.parts@.subrange(k + 1, self.parts@.len() as int));
        } else {
            assert(t =~= Seq::<SequencePart>::empty());
        }
    }

    /// The next number, or `None` once all have been produced.
    pub fn next(&mut self) -> (r: Option<usize>)
        ensures
            old(self).remaining().len() == 0 ==> r is None && final(self).remaining() == old(
                self,
            ).remaining(),
            old(self).remaining().len() > 0 ==> r == Some(old(self).remaining()[0])
                && final(self).remaining() == old(self).remaining().drop_first(),
    {
        proof {
            use_type_invariant(&*self);
        }
        if self.part >= self.parts.len() {
            return None;
        }
        let ghost before = self.remaining();
        let ghost p = self.parts@[self.part as int];
        let ghost k = self.part + 1;
        proof {
            self.lemma_next_part(k);
            if k < self.parts@.len() {
                lemma_part_values_len(self.parts@[k]);
                assert(part_values(self.parts@[k]).subrange(0, part_values(self.parts@[k]).len() as int)
                    =~= part_values(self.parts@[k]));
            }
        }
        match self.parts[self.part] {
            SequencePart::Single(n) => {
                self.offset = 0;
                self.part = self.part + 1;
                assert(self.remaining() =~= before.drop_first());
                Some(n)
            },
            SequencePart::Range(a, b) => {
                let v = a + self.offset;
                if v == b {
                    self.offset = 0;
                    self.part = self.part + 1;
                } else {
                    self.offset = self.offset + 1;
                }
                assert(self.remaining() =~= before.drop_first());
                Some(v)
            },
        }
    }
}

impl View for ArticleSequence {
    type V = Seq<SequencePart>;

    closed spec fn view(&self) -> Seq<SequencePart> {
        self.parts@
    }
}

/// `r` prefixed by the parts `ps` when it reads, else `r` unchanged.
spec fn after_parts(
    ps: Seq<SequencePart>,
    r: Result<Seq<SequencePart>, ParseErrorView>,
) -> Result<Seq<SequencePart>, ParseErrorView> {
    match r {
        Ok(q) => Ok(ps + q),
        Err(e) => Err(e),
    }
}

fn parse_part(tok: &Vec<char>) -> (r: Result<SequencePart, SequenceParseError>)
    ensures
        match r {
            Ok(p) => part_ok(p) && token_spec(tok@) == Ok::<SequencePart, ParseErrorView>(p),
            Err(e) => token_spec(tok@) == Err::<SequencePart, ParseErrorView>(e@),
        },
{
    let p = trim_chars(tok);
    if p.len() == 0 {
        return Err(SequenceParseError::EmptyPart);
    }
    match find_char(&p, '-') {
        Some(k) => {
            let a = parse_usize(&trim_chars(&slice_chars(&p, 0, k)));
            let b = parse_usize(&trim_chars(&slice_chars(&p, k + 1, p.len())));
            match (a, b) {
                (Some(start), Some(end)) => {
                    if start > end {
                        Err(SequenceParseError::DescendingRange { start, end })
                    } else {
                        Ok(SequencePart::Range(start, end))
                    }
                },
                _ => Err(SequenceParseError::InvalidRange(string_of(&p))),
            }
        },
        None => match parse_usize(&p) {
            Some(n) => Ok(SequencePart::Single(n)),
            None => Err(SequenceParseError::InvalidNumber(string_of(&p))),
        },
    }
}

/// Reads an expression of numbers and ranges, such as `1,3-5,8`.
///
/// Every token is checked before any number is produced; the first bad one,
/// from the left, decides the error.
pub fn parse_sequence(s: &str) -> (r: Result<ArticleSequence, SequenceParseError>)
    ensures
        match r {
            Ok(q) => parse_spec(s@) == Ok::<Seq<SequencePart>, ParseErrorView>(q@),
            Err(e) => parse_spec(s@) == Err::<Seq<SequencePart>, ParseErrorView>(e@),
        },
{
    let cs = chars_of(s);
    let toks = split_chars(&cs, ',');
    let ghost ts = split(s@, ',');
    let mut parts: Vec<SequencePart> = Vec::new();
    let mut i: usize = 0;
    assert(ts.subrange(0, ts.len() as int) =~= ts);
    assert(parts@ + Seq::<SequencePart>::empty() =~= parts@);
    while i < toks.len()
        invariant
            ts == split(s@, ','),
            toks@.len() == ts.len(),
            forall|k: int| 0 <= k < toks@.len() ==> (#[trigger] toks@[k])@ == ts[k],
            0 <= i <= ts.len(),
            forall|k: int| 0 <= k < parts@.len() ==> part_ok(#[trigger] parts@[k]),
            tokens_spec(ts) == after_parts(parts@, tokens_spec(ts.subrange(i as int, ts.len() as int))),
        decreases ts.len() - i,
    {
        let ghost rest = ts.subrange(i as int, ts.len() as int);
        assert(rest.drop_first() =~= ts.subrange(i + 1, ts.len() as int));
        assert(rest[0] == toks@[i as int]@);
        match parse_part(&toks[i]) {
            Ok(p) => {
                let ghost old_parts = parts@;
                parts.push(p);
                assert(old_parts + (seq![p] + Seq::<SequencePart>::empty()) =~= parts@);
                assert(forall|q: Seq<SequencePart>| old_parts + (seq![p] + q) =~= parts@ + q);
            },
            Err(e) => {
                return Err(e);
            },
        }
        i = i + 1;
    }
    assert(ts.subrange(i as int, ts.len() as int) =~= Seq::<Seq<char>>::empty());
    assert(parts@ + Seq::<SequencePart>::empty() =~= parts@);
    Ok(ArticleSequence { parts })
}

} // verus!
