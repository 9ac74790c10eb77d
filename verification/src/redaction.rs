//! Detection and replacement of sensitive text (keys, secrets, personal data).

use vstd::prelude::*;
use vstd::string::*;
use vstd::utf8::*;
use crate::error::AcerError;
use crate::regex_match::{CompiledRegex, regex_compiles, regex_error_text, regex_match_spans, spans_well_formed};
use crate::text::{decimal, decimal_string, byte_len, byte_slice, owned, span_text, str_byte_len, lemma_span_roundtrip, lemma_suffix_boundary};
use crate::types::{Redaction, RedactionRecord, redaction_records};

verus! {

/// Byte offset just past the text a redaction covers.
pub open spec fn redaction_end(r: RedactionRecord) -> int {
    r.position + byte_len(r.original)
}

/// The redaction covers a stretch of `bytes` that starts and ends on
/// character boundaries.
pub open spec fn fits(bytes: Seq<u8>, r: RedactionRecord) -> bool {
    &&& redaction_end(r) <= bytes.len()
    &&& is_char_boundary(bytes, r.position as int)
    &&& is_char_boundary(bytes, redaction_end(r))
}

pub open spec fn all_fit(bytes: Seq<u8>, rs: Seq<RedactionRecord>) -> bool {
    forall|i: int| 0 <= i < rs.len() ==> fits(bytes, #[trigger] rs[i])
}

/// A named regular expression and the text that replaces what it matches.
pub struct RedactionPattern {
    pub name: String,
    pub pattern: String,
    pub replacement: String,
    compiled: Option<CompiledRegex>,
}

fn invalid_regex_error(e: &regex::Error) -> (r: AcerError)
    ensures
        r matches AcerError::PolicyViolation(m) && m@ == "Invalid regex: "@ + m@.subrange(15, m@.len() as int),
{
    let mut m = owned("Invalid regex: ");
    let detail = regex_error_text(e);
    m.append(detail.as_str());
    proof {
        reveal_strlit("Invalid regex: ");
        assert(m@.subrange(15, m@.len() as int) =~= detail@);
    }
    AcerError::PolicyViolation(m)
}

/// What a `RedactionPattern` holds: its name, pattern text, replacement,
/// and the pattern its matcher was compiled from, once compiled.
pub struct PatternRecord {
    pub name: Seq<char>,
    pub pattern: Seq<char>,
    pub replacement: Seq<char>,
    pub compiled: Option<Seq<char>>,
}

impl View for RedactionPattern {
    type V = PatternRecord;

    closed spec fn view(&self) -> PatternRecord {
        PatternRecord {
            name: self.name@,
            pattern: self.pattern@,
            replacement: self.replacement@,
            compiled: match self.compiled {
                Some(c) => Some(c.source()),
                None => None,
            },
        }
    }
}

impl RedactionPattern {

    /// A compiled pattern; fails with `PolicyViolation` when the regular
    /// expression does not compile.
    pub fn new(name: &str, pattern: &str, replacement: &str) -> (r: Result<RedactionPattern, AcerError>)
        ensures
            r is Ok == regex_compiles(pattern@),
            r matches Ok(p) ==> {
                &&& p@.name == name@
                &&& p@.pattern == pattern@
                &&& p@.replacement == replacement@
                &&& p@.compiled == Some(pattern@)
            },
            r matches Err(e) ==> e is PolicyViolation,
    {
        match CompiledRegex::new(pattern) {
            Ok(c) => Ok(RedactionPattern {
                name: owned(name),
                pattern: owned(pattern),
                replacement: owned(replacement),
                compiled: Some(c),
            }),
            Err(e) => Err(invalid_regex_error(&e)),
        }
    }

    /// A pattern that has not been compiled yet; it matches nothing until
    /// `compile` succeeds.
    pub fn uncompiled(name: &str, pattern: &str, replacement: &str) -> (p: RedactionPattern)
        ensures
            p@.name == name@,
            p@.pattern == pattern@,
            p@.replacement == replacement@,
            p@.compiled is None,
    {
        RedactionPattern { name: owned(name), pattern: owned(pattern), replacement: owned(replacement), compiled: None }
    }

    /// Compiles `pattern` unless a compiled matcher is already present.
    pub fn compile(&mut self) -> (r: Result<(), AcerError>)
        ensures
            final(self)@.name == old(self)@.name,
            final(self)@.pattern == old(self)@.pattern,
            final(self)@.replacement == old(self)@.replacement,
            old(self)@.compiled is Some ==> r is Ok && final(self)@.compiled == old(self)@.compiled,
            old(self)@.compiled is None ==> {
                &&& (r is Ok == regex_compiles(old(self)@.pattern))
                &&& (r is Ok ==> final(self)@.compiled == Some(old(self)@.pattern))
                &&& (r is Err ==> final(self)@.compiled is None)
            },
            r matches Err(e) ==> e is PolicyViolation,
    {
        if self.compiled.is_none() {
            match CompiledRegex::new(self.pattern.as_str()) {
                Ok(c) => {
                    self.compiled = Some(c);
                }
                Err(e) => {
                    return Err(invalid_regex_error(&e));
                }
            }
        }
        Ok(())
    }

    /// Every match in `text`: its start and end byte offsets and the matched text.
    pub fn matches<'a>(&self, text: &'a str) -> (v: Vec<(usize, usize, &'a str)>)
        ensures
            v@.len() == pattern_spans(*self, text@).len(),
            forall|i: int| 0 <= i < v@.len() ==> {
                &&& (#[trigger] v@[i]).0 == pattern_spans(*self, text@)[i].0
                &&& v@[i].1 == pattern_spans(*self, text@)[i].1
                &&& v@[i].2@ == span_text(text.spec_bytes(), v@[i].0 as int, v@[i].1 as int)
            },
            spans_well_formed(text.spec_bytes(), pattern_spans(*self, text@)),
    {
        let mut v: Vec<(usize, usize, &'a str)> = Vec::new();
        match &self.compiled {
            None => {
                v
            }
            Some(c) => {
                let spans = c.find_spans(text);
                for i in 0..spans.len()
                    invariant
                        spans@ == pattern_spans(*self, text@),
                        spans_well_formed(text.spec_bytes(), spans@),
                        v@.len() == i,
                        forall|k: int| 0 <= k < i ==> {
                            &&& (#[trigger] v@[k]).0 == spans@[k].0
                            &&& v@[k].1 == spans@[k].1
                            &&& v@[k].2@ == span_text(text.spec_bytes(), v@[k].0 as int, v@[k].1 as int)
                        },
                {
                    let (s, e) = spans[i];
                    assert(spans@[i as int] == (s, e));
                    let piece = byte_slice(text, s, e);
                    v.push((s, e, piece));
                }
                v
            }
        }
    }
}

/// The byte ranges a pattern matches in `text`; an uncompiled pattern matches nothing.
pub open spec fn pattern_spans(p: RedactionPattern, text: Seq<char>) -> Seq<(usize, usize)> {
    match p@.compiled {
        Some(src) => regex_match_spans(src, text),
        None => Seq::empty(),
    }
}

/// The redaction a pattern proposes for one of its matches.
pub open spec fn hit(p: RedactionPattern, text: Seq<char>, span: (usize, usize)) -> RedactionRecord {
    RedactionRecord {
        original: span_text(encode_utf8(text), span.0 as int, span.1 as int),
        replacement: p@.replacement,
        pattern_type: p@.name,
        position: span.0,
    }
}

/// The redactions one pattern proposes, in match order.
pub open spec fn pattern_hits(p: RedactionPattern, text: Seq<char>) -> Seq<RedactionRecord> {
    pattern_spans(p, text).map_values(|span: (usize, usize)| hit(p, text, span))
}

/// The redactions all patterns propose, pattern by pattern.
pub open spec fn raw_hits(ps: Seq<RedactionPattern>, text: Seq<char>) -> Seq<RedactionRecord>
    decreases ps.len(),
{
    if ps.len() == 0 {
        Seq::empty()
    } else {
        raw_hits(ps.drop_last(), text) + pattern_hits(ps.last(), text)
    }
}

/// Where a redaction at `pos` goes among the first `k` entries of a list
/// ordered by position: after every entry at the same or an earlier position.
pub open spec fn insertion_point(s: Seq<RedactionRecord>, pos: usize, k: int) -> int
    decreases k,
{
    if k > 0 && s[k - 1].position > pos {
        insertion_point(s, pos, k - 1)
    } else {
        k
    }
}

pub open spec fn insert_by_position(s: Seq<RedactionRecord>, x: RedactionRecord) -> Seq<RedactionRecord> {
    s.insert(insertion_point(s, x.position, s.len() as int), x)
}

/// The stable sort of `s` by position: entries at the same position keep
/// their relative order.
pub open spec fn sort_by_position(s: Seq<RedactionRecord>) -> Seq<RedactionRecord>
    decreases s.len(),
{
    if s.len() == 0 {
        s
    } else {
        insert_by_position(sort_by_position(s.drop_last()), s.last())
    }
}

pub open spec fn sorted_by_position(s: Seq<RedactionRecord>) -> bool {
    forall|i: int, j: int| 0 <= i < j < s.len() ==> (#[trigger] s[i]).position <= (#[trigger] s[j]).position
}

proof fn lemma_insertion_point(s: Seq<RedactionRecord>, pos: usize, k: int)
    requires
        0 <= k <= s.len(),
    ensures
        0 <= insertion_point(s, pos, k) <= k,
        forall|j: int| insertion_point(s, pos, k) <= j < k ==> (#[trigger] s[j]).position > pos,
        insertion_point(s, pos, k) > 0 ==> s[insertion_point(s, pos, k) - 1].position <= pos,
    decreases k,
{
    if k > 0 && s[k - 1].position > pos {
        lemma_insertion_point(s, pos, k - 1);
    }
}

proof fn lemma_insert_sorted(s: Seq<RedactionRecord>, x: RedactionRecord)
    requires
        sorted_by_position(s),
    ensures
        sorted_by_position(insert_by_position(s, x)),
        insert_by_position(s, x).len() == s.len() + 1,
        forall|i: int| 0 <= i < insert_by_position(s, x).len() ==>
            #[trigger] insert_by_position(s, x)[i] == x || s.contains(insert_by_position(s, x)[i]),
{
    let k = insertion_point(s, x.position, s.len() as int);
    lemma_insertion_point(s, x.position, s.len() as int);
    let t = insert_by_position(s, x);
    assert forall|i: int, j: int| 0 <= i < j < t.len() implies (#[trigger] t[i]).position <= (#[trigger] t[j]).position by {
        if j < k {
        } else if j == k {
            if i < k - 1 {
                assert(s[i].position <= s[k - 1].position);
            }
        } else if i < k {
            if i < k - 1 {
                assert(s[i].position <= s[k - 1].position);
            }
            assert(s[j - 1].position > x.position);
        } else if i == k {
            assert(s[j - 1].position > x.position);
        } else {
            assert(s[i - 1].position <= s[j - 1].position);
        }
    }
    assert forall|i: int| 0 <= i < t.len() implies #[trigger] t[i] == x || s.contains(t[i]) by {
        if i < k {
            assert(t[i] == s[i]);
        } else if i > k {
            assert(t[i] == s[i - 1]);
        }
    }
}

/// Sorting by position yields a list ordered by position, of the same length,
/// holding only entries of the input.
pub proof fn lemma_sort_by_position(s: Seq<RedactionRecord>)
    ensures
        sorted_by_position(sort_by_position(s)),
        sort_by_position(s).len() == s.len(),
        forall|i: int| 0 <= i < sort_by_position(s).len() ==> s.contains(#[trigger] sort_by_position(s)[i]),
    decreases s.len(),
{
    if s.len() > 0 {
        let rest = s.drop_last();
        lemma_sort_by_position(rest);
        lemma_insert_sorted(sort_by_position(rest), s.last());
        let t = sort_by_position(s);
        assert forall|i: int| 0 <= i < t.len() implies s.contains(#[trigger] t[i]) by {
            if t[i] == s.last() {
                assert(s[s.len() - 1] == t[i]);
            } else {
                let j = choose|j: int| 0 <= j < sort_by_position(rest).len() && sort_by_position(rest)[j] == t[i];
                assert(rest.contains(sort_by_position(rest)[j]));
                let m = choose|m: int| 0 <= m < rest.len() && rest[m] == t[i];
                assert(s[m] == t[i]);
            }
        }
    }
}

/// Sorting keeps every entry fitting the text.
proof fn lemma_sort_fits(bytes: Seq<u8>, s: Seq<RedactionRecord>)
    requires
        all_fit(bytes, s),
    ensures
        all_fit(bytes, sort_by_position(s)),
{
    lemma_sort_by_position(s);
    let t = sort_by_position(s);
    assert forall|i: int| 0 <= i < t.len() implies fits(bytes, #[trigger] t[i]) by {
        assert(s.contains(t[i]));
    }
}

/// Sorts redactions by position, keeping the order of those at the same position.
fn sort_redactions(items: &Vec<Redaction>) -> (r: Vec<Redaction>)
    ensures
        redaction_records(r@) == sort_by_position(redaction_records(items@)),
{
    let ghost input = redaction_records(items@);
    let mut sorted: Vec<Redaction> = Vec::new();
    for i in 0..items.len()
        invariant
            input == redaction_records(items@),
            redaction_records(sorted@) == sort_by_position(input.take(i as int)),
    {
        let x = items[i].clone();
        let ghost prev = redaction_records(sorted@);
        let mut k = sorted.len();
        while k > 0 && sorted[k - 1].position > x.position
            invariant
                k <= sorted@.len(),
                prev == redaction_records(sorted@),
                insertion_point(prev, x.position, prev.len() as int) == insertion_point(prev, x.position, k as int),
            decreases k,
        {
            assert(prev[k - 1] == sorted@[k - 1]@);
            k = k - 1;
        }
        proof {
            if k > 0 {
                assert(prev[k - 1] == sorted@[k - 1]@);
            }
        }
        sorted.insert(k, x);
        proof {
            assert(input.take(i + 1).drop_last() =~= input.take(i as int));
            assert(input.take(i + 1).last() == x@);
            assert(redaction_records(sorted@) =~= prev.insert(k as int, x@));
        }
    }
    assert(input.take(items.len() as int) =~= input);
    sorted
}

/// The text with the given chained redactions applied.
fn apply_redactions(text: &str, kept: &Vec<Redaction>) -> (out: String)
    requires
        all_fit(text.spec_bytes(), redaction_records(kept@)),
        chained(redaction_records(kept@), 0),
    ensures
        out@ == splice(text.spec_bytes(), redaction_records(kept@), 0),
{
    let ghost bytes = text.spec_bytes();
    let ghost ks = redaction_records(kept@);
    let total = str_byte_len(text);
    proof {
        encode_utf8_valid_utf8(text@);
        is_char_boundary_start_end_of_seq(bytes);
        assert(bytes.subrange(0, bytes.len() as int) =~= bytes);
        assert(ks.skip(0) =~= ks);
    }
    let mut out = String::new();
    let mut rest: &str = text;
    let mut cursor: usize = 0;
    let mut i: usize = 0;
    assert(out@ + splice(bytes, ks.skip(0), 0) =~= splice(bytes, ks, 0));
    while i < kept.len()
        invariant
            bytes == text.spec_bytes(),
            valid_utf8(bytes),
            total == bytes.len(),
            ks == redaction_records(kept@),
            i <= kept@.len(),
            all_fit(bytes, ks),
            cursor <= bytes.len(),
            is_char_boundary(bytes, cursor as int),
            rest.spec_bytes() == bytes.subrange(cursor as int, bytes.len() as int),
            chained(ks.skip(i as int), cursor as int),
            out@ + splice(bytes, ks.skip(i as int), cursor as int) == splice(bytes, ks, 0),
        decreases kept@.len() - i,
    {
        let r = &kept[i];
        let start = r.position;
        let n = str_byte_len(r.original.as_str());
        let ghost k = ks.skip(i as int);
        proof {
            assert(k[0] == r@);
            assert(k.drop_first() =~= ks.skip(i + 1));
            assert(fits(bytes, ks[i as int]));
            lemma_suffix_boundary(bytes, cursor as int, start as int);
        }
        let end = start + n;
        let (pre, tail) = rest.split_at(start - cursor);
        proof {
            assert(tail.spec_bytes() =~= bytes.subrange(start as int, bytes.len() as int));
            assert(pre.spec_bytes() =~= bytes.subrange(cursor as int, start as int));
            encode_utf8_decode_utf8(pre@);
            lemma_suffix_boundary(bytes, start as int, end as int);
        }
        let ghost old_out = out@;
        out.append(pre);
        out.append(r.replacement.as_str());
        let (_, after) = tail.split_at(end - start);
        proof {
            assert(after.spec_bytes() =~= bytes.subrange(end as int, bytes.len() as int));
            assert(out@ + splice(bytes, ks.skip(i + 1), end as int)
                =~= old_out + splice(bytes, k, cursor as int));
        }
        rest = after;
        cursor = end;
        i = i + 1;
    }
    proof {
        encode_utf8_decode_utf8(rest@);
        assert(ks.skip(i as int) =~= Seq::<RedactionRecord>::empty());
    }
    out.append(rest);
    out
}

/// The built-in patterns: name, regular expression and replacement.
pub const DEFAULT_PATTERNS: [(&'static str, &'static str, &'static str); 13] = [
    ("aws_access_key", r"(?i)(A3T[A-Z0-9]|AKIA|AGPA|AIDA|AROA|AIPA|ANPA|ANVA|ASIA)[A-Z0-9]{16}", "[REDACTED_AWS_KEY]"),
    ("aws_secret_key", r#"(?i)aws(.{0,20})?['"][0-9a-zA-Z/+=]{40}['"]"#, "[REDACTED_AWS_SECRET]"),
    ("api_key", r#"(?i)(api[_-]?key|apikey|api_secret)['"]?\s*[:=]\s*['"]?[a-zA-Z0-9_\-]{20,}['"]?"#, "[REDACTED_API_KEY]"),
    ("openai_key", r"sk-[a-zA-Z0-9]{20,}T3BlbkFJ[a-zA-Z0-9]{20,}", "[REDACTED_OPENAI_KEY]"),
    ("anthropic_key", r"sk-ant-api03-[a-zA-Z0-9\-]{80,}", "[REDACTED_ANTHROPIC_KEY]"),
    ("secret", r#"(?i)(secret|password|passwd|pwd)['"]?\s*[:=]\s*['"]?[^\s'"]{8,}['"]?"#, "[REDACTED_SECRET]"),
    ("jwt", r"eyJ[a-zA-Z0-9_-]*\.eyJ[a-zA-Z0-9_-]*\.[a-zA-Z0-9_-]*", "[REDACTED_JWT]"),
    ("email", r"[a-zA-Z0-9._%+-]+@[a-zA-Z0-9.-]+\.[a-zA-Z]{2,}", "[REDACTED_EMAIL]"),
    ("ssn", r"\b\d{3}[-.]?\d{2}[-.]?\d{4}\b", "[REDACTED_SSN]"),
    ("credit_card", r"\b(?:\d{4}[-\s]?){3}\d{4}\b", "[REDACTED_CC]"),
    ("phone", r"\b(?:\+?1[-.]?)?\(?\d{3}\)?[-.]?\d{3}[-.]?\d{4}\b", "[REDACTED_PHONE]"),
    ("ip_address", r"\b(?:\d{1,3}\.){3}\d{1,3}\b", "[REDACTED_IP]"),
    ("private_key", r"-----BEGIN (?:RSA |EC |DSA )?PRIVATE KEY-----[\s\S]*?-----END (?:RSA |EC |DSA )?PRIVATE KEY-----", "[REDACTED_PRIVATE_KEY]"),
];

/// The views of a list of patterns.
pub open spec fn pattern_records(ps: Seq<RedactionPattern>) -> Seq<PatternRecord> {
    ps.map_values(|p: RedactionPattern| p@)
}

/// The compiled pattern a table entry describes.
pub open spec fn entry_record(e: (&str, &str, &str)) -> PatternRecord {
    PatternRecord { name: e.0@, pattern: e.1@, replacement: e.2@, compiled: Some(e.1@) }
}

/// The entries of a table whose regular expression compiles, in order.
pub open spec fn compiling_entries(es: Seq<(&str, &str, &str)>) -> Seq<PatternRecord>
    decreases es.len(),
{
    if es.len() == 0 {
        Seq::empty()
    } else if regex_compiles(es.last().1@) {
        compiling_entries(es.drop_last()).push(entry_record(es.last()))
    } else {
        compiling_entries(es.drop_last())
    }
}

/// The built-in patterns, compiled; an entry that does not compile is left out.
fn default_patterns() -> (v: Vec<RedactionPattern>)
    ensures
        pattern_records(v@) == compiling_entries(DEFAULT_PATTERNS@),
{
    let mut v: Vec<RedactionPattern> = Vec::new();
    let ghost table = DEFAULT_PATTERNS@;
    for i in 0..13
        invariant
            table == DEFAULT_PATTERNS@,
            pattern_records(v@) == compiling_entries(table.take(i as int)),
    {
        let (name, pattern, replacement) = DEFAULT_PATTERNS[i];
        let ghost old_v = v@;
        proof {
            assert(table.take(i + 1).drop_last() =~= table.take(i as int));
            assert(table.take(i + 1).last() == (name, pattern, replacement));
        }
        match RedactionPattern::new(name, pattern, replacement) {
            Ok(p) => {
                v.push(p);
                assert(pattern_records(v@) =~= pattern_records(old_v).push(p@));
            }
            Err(_) => {}
        }
    }
    assert(table.take(13) =~= table);
    v
}

/// The redaction engine: an ordered list of patterns.
pub struct RedactionEngine {
    patterns: Vec<RedactionPattern>,
}

impl RedactionEngine {
    /// The patterns in the order they are applied.
    pub closed spec fn patterns(self) -> Seq<RedactionPattern> {
        self.patterns@
    }

    /// An engine with the built-in patterns (`DEFAULT_PATTERNS`), in order.
    pub fn new() -> (e: RedactionEngine)
        ensures
            pattern_records(e.patterns()) == compiling_entries(DEFAULT_PATTERNS@),
    {
        RedactionEngine { patterns: default_patterns() }
    }

    /// An engine with no patterns at all.
    pub fn empty() -> (e: RedactionEngine)
        ensures
            e.patterns() == Seq::<RedactionPattern>::empty(),
    {
        RedactionEngine { patterns: Vec::new() }
    }

    /// Every place a pattern matches `text`, ordered by position; matches at
    /// the same position keep the order of their patterns.
    pub fn scan(&self, text: &str) -> (r: Vec<Redaction>)
        ensures
            redaction_records(r@) == scan_result(self.patterns(), text@),
            all_fit(text.spec_bytes(), redaction_records(r@)),
    {
        let ghost bytes = text.spec_bytes();
        let mut hits: Vec<Redaction> = Vec::new();
        for i in 0..self.patterns.len()
            invariant
                bytes == text.spec_bytes(),
                redaction_records(hits@) == raw_hits(self.patterns@.take(i as int), text@),
                all_fit(bytes, redaction_records(hits@)),
        {
            let p = &self.patterns[i];
            let m = p.matches(text);
            let ghost before = redaction_records(hits@);
            let ghost expected = pattern_hits(*p, text@);
            for j in 0..m.len()
                invariant
                    bytes == text.spec_bytes(),
                    m@.len() == pattern_spans(*p, text@).len(),
                    forall|k: int| 0 <= k < m@.len() ==> {
                        &&& (#[trigger] m@[k]).0 == pattern_spans(*p, text@)[k].0
                        &&& m@[k].1 == pattern_spans(*p, text@)[k].1
                        &&& m@[k].2@ == span_text(text.spec_bytes(), m@[k].0 as int, m@[k].1 as int)
                    },
                    spans_well_formed(text.spec_bytes(), pattern_spans(*p, text@)),
                    expected == pattern_hits(*p, text@),
                    redaction_records(hits@) == before + expected.take(j as int),
                    all_fit(bytes, redaction_records(hits@)),
            {
                let (s, e, piece) = m[j];
                let r = Redaction {
                    original: owned(piece),
                    replacement: p.replacement.clone(),
                    pattern_type: p.name.clone(),
                    position: s,
                };
                let ghost old_hits = hits@;
                proof {
                    let span = pattern_spans(*p, text@)[j as int];
                    assert(m@[j as int].0 == span.0 && m@[j as int].1 == span.1);
                    encode_utf8_valid_utf8(text@);
                    lemma_span_roundtrip(bytes, s as int, e as int);
                    assert(r@ == expected[j as int]);
                    assert(fits(bytes, r@));
                }
                hits.push(r);
                proof {
                    assert(redaction_records(hits@) =~= redaction_records(old_hits).push(r@));
                    assert(expected.take(j + 1) =~= expected.take(j as int).push(expected[j as int]));
                    assert(redaction_records(hits@) =~= before + expected.take(j + 1));
                }
            }
            proof {
                assert(expected.take(m@.len() as int) =~= expected);
                assert(self.patterns@.take(i + 1).drop_last() =~= self.patterns@.take(i as int));
                assert(self.patterns@.take(i + 1).last() == *p);
            }
        }
        proof {
            assert(self.patterns@.take(self.patterns@.len() as int) =~= self.patterns@);
            lemma_sort_fits(bytes, redaction_records(hits@));
        }
        sort_redactions(&hits)
    }

    /// Replaces the sensitive parts of `text`. The matches `scan` finds are
    /// taken in order; one that overlaps an earlier kept match is dropped.
    /// Returns the new text and the redactions that were applied.
    pub fn redact(&self, text: &str) -> (r: (String, Vec<Redaction>))
        ensures
            redaction_records(r.1@) == applied_redactions(self.patterns(), text@),
            r.0@ == redacted_text(self.patterns(), text@),
    {
        let total = str_byte_len(text);
        let redactions = self.scan(text);
        let ghost bytes = text.spec_bytes();
        if redactions.len() == 0 {
            proof {
                encode_utf8_decode_utf8(text@);
                assert(bytes.subrange(0, bytes.len() as int) =~= bytes);
                assert(redaction_records(redactions@) =~= Seq::<RedactionRecord>::empty());
            }
            return (owned(text), redactions);
        }
        let ghost all = redaction_records(redactions@);
        proof {
            assert forall|i: int| 0 <= i < redactions@.len() implies redaction_end(#[trigger] redactions@[i]@) <= usize::MAX by {
                assert(fits(bytes, all[i]));
            }
        }
        let kept = drop_overlapping_redactions(&redactions);
        proof {
            lemma_drop_overlapping(all, 0);
            let ks = redaction_records(kept@);
            assert forall|i: int| 0 <= i < ks.len() implies fits(bytes, #[trigger] ks[i]) by {
                assert(all.contains(ks[i]));
            }
        }
        let out = apply_redactions(text, &kept);
        (out, kept)
    }

    /// Compiles `pattern` (unless it already is) and appends it; on failure
    /// the engine is unchanged.
    pub fn add_pattern(&mut self, pattern: RedactionPattern) -> (r: Result<(), AcerError>)
        ensures
            r is Err <==> (pattern@.compiled is None && !regex_compiles(pattern@.pattern)),
            r is Err ==> final(self).patterns() == old(self).patterns(),
            r is Ok ==> {
                &&& final(self).patterns().len() == old(self).patterns().len() + 1
                &&& final(self).patterns().take(old(self).patterns().len() as int) == old(self).patterns()
                &&& final(self).patterns().last()@ == PatternRecord {
                    compiled: if pattern@.compiled is Some { pattern@.compiled } else { Some(pattern@.pattern) },
                    ..pattern@
                }
            },
            r matches Err(e) ==> e is PolicyViolation,
    {
        let mut pattern = pattern;
        pattern.compile()?;
        self.patterns.push(pattern);
        assert(self.patterns@.take(old(self).patterns@.len() as int) =~= old(self).patterns@);
        Ok(())
    }

    /// Appends one pattern per entry of `patterns`, named `blocklist_<index>`
    /// and replaced by `[BLOCKED]`. Stops at the first entry that does not
    /// compile; the entries before it stay added.
    pub fn add_block_patterns(&mut self, patterns: &[String]) -> (r: Result<(), AcerError>)
        ensures
            ({
                let added = final(self).patterns().len() - old(self).patterns().len();
                &&& 0 <= added <= patterns@.len()
                &&& final(self).patterns().take(old(self).patterns().len() as int) == old(self).patterns()
                &&& forall|j: int| 0 <= j < added ==> regex_compiles(#[trigger] patterns@[j]@)
                &&& forall|j: int| 0 <= j < added ==>
                    (#[trigger] final(self).patterns()[old(self).patterns().len() + j])@ == block_record(j, patterns@[j]@)
                &&& (r is Ok <==> added == patterns@.len())
                &&& (r is Err ==> !regex_compiles(patterns@[added]@))
            }),
            r matches Err(e) ==> e is PolicyViolation,
    {
        let ghost start = self.patterns@;
        for i in 0..patterns.len()
            invariant
                self.patterns@.len() == start.len() + i,
                self.patterns@.take(start.len() as int) == start,
                start == old(self).patterns@,
                forall|j: int| 0 <= j < i ==> regex_compiles(#[trigger] patterns@[j]@),
                forall|j: int| 0 <= j < i ==>
                    (#[trigger] self.patterns@[start.len() + j])@ == block_record(j, patterns@[j]@),
        {
            let mut name = owned("blocklist_");
            name.append(decimal_string(i as u64).as_str());
            let ghost old_patterns = self.patterns@;
            match RedactionPattern::new(name.as_str(), patterns[i].as_str(), "[BLOCKED]") {
                Ok(p) => {
                    self.patterns.push(p);
                    assert(self.patterns@.take(start.len() as int) =~= old_patterns.take(start.len() as int));
                    assert(self.patterns@[start.len() + i] == p);
                }
                Err(e) => {
                    return Err(e);
                }
            }
        }
        Ok(())
    }

    /// Whether any pattern matches somewhere in `text`.
    pub fn contains_sensitive(&self, text: &str) -> (b: bool)
        ensures
            b == exists|i: int| 0 <= i < self.patterns().len() && (#[trigger] pattern_spans(self.patterns()[i], text@)).len() > 0,
    {
        let mut i: usize = 0;
        while i < self.patterns.len()
            invariant
                i <= self.patterns@.len(),
                forall|j: int| 0 <= j < i ==> (#[trigger] pattern_spans(self.patterns@[j], text@)).len() == 0,
            decreases self.patterns@.len() - i,
        {
            if self.patterns[i].matches(text).len() > 0 {
                assert(pattern_spans(self.patterns()[i as int], text@).len() > 0);
                return true;
            }
            i = i + 1;
        }
        false
    }

    /// The names of the patterns, in order.
    pub fn pattern_names(&self) -> (v: Vec<&str>)
        ensures
            v@.len() == self.patterns().len(),
            forall|i: int| 0 <= i < v@.len() ==> (#[trigger] v@[i])@ == self.patterns()[i]@.name,
    {
        let mut v: Vec<&str> = Vec::new();
        for i in 0..self.patterns.len()
            invariant
                v@.len() == i,
                forall|j: int| 0 <= j < i ==> (#[trigger] v@[j])@ == self.patterns@[j]@.name,
        {
            v.push(pattern_name(&self.patterns[i]));
        }
        v
    }
}

/// The pattern `add_block_patterns` makes for the entry at `index`.
pub open spec fn block_record(index: int, pattern: Seq<char>) -> PatternRecord {
    PatternRecord {
        name: "blocklist_"@ + decimal(index as nat),
        pattern,
        replacement: "[BLOCKED]"@,
        compiled: Some(pattern),
    }
}

impl Default for RedactionEngine {
    fn default() -> (e: Self)
        ensures
            pattern_records(e.patterns()) == compiling_entries(DEFAULT_PATTERNS@),
    {
        RedactionEngine::new()
    }
}

fn pattern_name(p: &RedactionPattern) -> (r: &str)
    ensures
        r@ == p@.name,
{
    p.name.as_str()
}

/// The redactions that survive overlap removal: walking the list in order,
/// a redaction is kept when it starts at or after the end of the last kept one.
pub open spec fn drop_overlapping(rs: Seq<RedactionRecord>, last_end: int) -> Seq<RedactionRecord>
    decreases rs.len(),
{
    if rs.len() == 0 {
        rs
    } else if rs[0].position >= last_end {
        seq![rs[0]] + drop_overlapping(rs.drop_first(), redaction_end(rs[0]))
    } else {
        drop_overlapping(rs.drop_first(), last_end)
    }
}

/// Each redaction starts at or after the end of the one before it (the
/// first at or after `from`).
pub open spec fn chained(rs: Seq<RedactionRecord>, from: int) -> bool
    decreases rs.len(),
{
    rs.len() == 0 || (rs[0].position >= from && chained(rs.drop_first(), redaction_end(rs[0])))
}

/// The text with each redaction's stretch replaced by its replacement; the
/// redactions are applied from byte offset `from` on.
pub open spec fn splice(bytes: Seq<u8>, rs: Seq<RedactionRecord>, from: int) -> Seq<char>
    decreases rs.len(),
{
    if rs.len() == 0 {
        span_text(bytes, from, bytes.len() as int)
    } else {
        span_text(bytes, from, rs[0].position as int) + rs[0].replacement + splice(bytes, rs.drop_first(), redaction_end(rs[0]))
    }
}

/// What is left after overlap removal is chained and made of input entries.
pub proof fn lemma_drop_overlapping(rs: Seq<RedactionRecord>, last_end: int)
    ensures
        chained(drop_overlapping(rs, last_end), last_end),
        forall|i: int| 0 <= i < drop_overlapping(rs, last_end).len() ==> rs.contains(#[trigger] drop_overlapping(rs, last_end)[i]),
    decreases rs.len(),
{
    if rs.len() > 0 {
        let rest = rs.drop_first();
        let next_end = if rs[0].position >= last_end { redaction_end(rs[0]) } else { last_end };
        lemma_drop_overlapping(rest, next_end);
        let d = drop_overlapping(rs, last_end);
        if rs[0].position >= last_end {
            assert(d.drop_first() =~= drop_overlapping(rest, next_end));
        }
        assert forall|i: int| 0 <= i < d.len() implies rs.contains(#[trigger] d[i]) by {
            if rs[0].position >= last_end {
                if i == 0 {
                    assert(rs[0] == d[i]);
                } else {
                    assert(d[i] == drop_overlapping(rest, next_end)[i - 1]);
                    let m = choose|m: int| 0 <= m < rest.len() && rest[m] == d[i];
                    assert(rs[m + 1] == d[i]);
                }
            } else {
                let m = choose|m: int| 0 <= m < rest.len() && rest[m] == d[i];
                assert(rs[m + 1] == d[i]);
            }
        }
    }
}

/// The result of `redact`: the redactions it applied and the text after them.
pub open spec fn applied_redactions(ps: Seq<RedactionPattern>, text: Seq<char>) -> Seq<RedactionRecord> {
    drop_overlapping(scan_result(ps, text), 0)
}

pub open spec fn redacted_text(ps: Seq<RedactionPattern>, text: Seq<char>) -> Seq<char> {
    splice(encode_utf8(text), applied_redactions(ps, text), 0)
}

/// Keeps the redactions that do not overlap an earlier kept one.
fn drop_overlapping_redactions(rs: &Vec<Redaction>) -> (kept: Vec<Redaction>)
    requires
        forall|i: int| 0 <= i < rs@.len() ==> redaction_end(#[trigger] rs@[i]@) <= usize::MAX,
    ensures
        redaction_records(kept@) == drop_overlapping(redaction_records(rs@), 0),
{
    let ghost all = redaction_records(rs@);
    let mut kept: Vec<Redaction> = Vec::new();
    let mut last_end: usize = 0;
    let mut i: usize = 0;
    assert(all.skip(0) =~= all);
    assert(redaction_records(kept@) + drop_overlapping(all, 0) =~= drop_overlapping(all, 0));
    while i < rs.len()
        invariant
            i <= rs@.len(),
            all == redaction_records(rs@),
            forall|k: int| 0 <= k < rs@.len() ==> redaction_end(#[trigger] rs@[k]@) <= usize::MAX,
            redaction_records(kept@) + drop_overlapping(all.skip(i as int), last_end as int) == drop_overlapping(all, 0),
        decreases rs@.len() - i,
    {
        let r = &rs[i];
        let ghost old_kept = kept@;
        let ghost old_end = last_end;
        proof {
            assert(all.skip(i as int)[0] == r@);
            assert(all.skip(i as int).drop_first() =~= all.skip(i + 1));
        }
        if r.position >= last_end {
            let n = str_byte_len(r.original.as_str());
            assert(redaction_end(rs@[i as int]@) <= usize::MAX);
            kept.push(r.clone());
            last_end = r.position + n;
            proof {
                assert(redaction_records(kept@) =~= redaction_records(old_kept).push(r@));
                assert(redaction_records(kept@) + drop_overlapping(all.skip(i + 1), last_end as int)
                    =~= redaction_records(old_kept) + drop_overlapping(all.skip(i as int), old_end as int));
            }
        }
        i = i + 1;
    }
    proof {
        assert(all.skip(rs@.len() as int) =~= Seq::<RedactionRecord>::empty());
        assert(redaction_records(kept@) + Seq::<RedactionRecord>::empty() =~= redaction_records(kept@));
    }
    kept
}

/// What `scan` reports: all matches of all patterns, stably sorted by position.
pub open spec fn scan_result(ps: Seq<RedactionPattern>, text: Seq<char>) -> Seq<RedactionRecord> {
    sort_by_position(raw_hits(ps, text))
}

} // verus!
