//! Statement classification: the text is trimmed of leading and trailing
//! Unicode whitespace, and its first ASCII-whitespace-delimited token,
//! case-folded, decides whether the statement returns rows (`select`),
//! affects rows (`insert`, `update`, `delete`), or is not recognized at
//! all.

use vstd::prelude::*;
use vstd::string::StrSliceExecFns;

verus! {

/// What kind of operation a piece of SQL text asks for.
#[derive(Clone, Copy, PartialEq, Eq, Structural, Debug)]
pub enum OperationType {
    Select,
    Insert,
    Update,
    Delete,
    Unknown,
}

/// The 25 Unicode White_Space code points, the set trimming removes from
/// both ends of the text.
pub open spec fn is_unicode_space(c: char) -> bool {
    let u = c as u32;
    ||| u == 0x09
    ||| u == 0x0A
    ||| u == 0x0B
    ||| u == 0x0C
    ||| u == 0x0D
    ||| u == 0x20
    ||| u == 0x85
    ||| u == 0xA0
    ||| u == 0x1680
    ||| (0x2000 <= u && u <= 0x200A)
    ||| u == 0x2028
    ||| u == 0x2029
    ||| u == 0x202F
    ||| u == 0x205F
    ||| u == 0x3000
}

/// ASCII whitespace, the only whitespace tokenization splits on.
pub open spec fn is_ascii_space(c: char) -> bool {
    let u = c as u32;
    u == 0x09 || u == 0x0A || u == 0x0C || u == 0x0D || u == 0x20
}

/// The text with its leading Unicode whitespace removed.
pub open spec fn trim_start(s: Seq<char>) -> Seq<char>
    decreases s.len(),
{
    if s.len() == 0 {
        s
    } else if is_unicode_space(s[0]) {
        trim_start(s.drop_first())
    } else {
        s
    }
}

/// The text with its trailing Unicode whitespace removed.
pub open spec fn trim_end(s: Seq<char>) -> Seq<char>
    decreases s.len(),
{
    if s.len() == 0 {
        s
    } else if is_unicode_space(s.last()) {
        trim_end(s.drop_last())
    } else {
        s
    }
}

/// The text trimmed of Unicode whitespace at both ends.
pub open spec fn spec_trim(s: Seq<char>) -> Seq<char> {
    trim_end(trim_start(s))
}

/// The longest prefix free of ASCII whitespace: the first token of a
/// trimmed text.
pub open spec fn leading_token(s: Seq<char>) -> Seq<char>
    decreases s.len(),
{
    if s.len() == 0 || is_ascii_space(s[0]) {
        Seq::empty()
    } else {
        seq![s[0]] + leading_token(s.drop_first())
    }
}

/// ASCII case folding of one character, as its code point.
pub open spec fn fold_code(c: char) -> u32 {
    if 65 <= c as u32 && c as u32 <= 90 {
        (c as u32 + 32) as u32
    } else {
        c as u32
    }
}

/// ASCII case folding of a token, as code points.
pub open spec fn folded_codes(s: Seq<char>) -> Seq<u32> {
    s.map_values(|c: char| fold_code(c))
}

pub open spec fn select_keyword() -> Seq<u32> {
    seq![115u32, 101u32, 108u32, 101u32, 99u32, 116u32]
}

pub open spec fn insert_keyword() -> Seq<u32> {
    seq![105u32, 110u32, 115u32, 101u32, 114u32, 116u32]
}

pub open spec fn update_keyword() -> Seq<u32> {
    seq![117u32, 112u32, 100u32, 97u32, 116u32, 101u32]
}

pub open spec fn delete_keyword() -> Seq<u32> {
    seq![100u32, 101u32, 108u32, 101u32, 116u32, 101u32]
}

/// The operation a case-folded token names.
pub open spec fn token_kind(t: Seq<u32>) -> OperationType {
    if t == select_keyword() {
        OperationType::Select
    } else if t == insert_keyword() {
        OperationType::Insert
    } else if t == update_keyword() {
        OperationType::Update
    } else if t == delete_keyword() {
        OperationType::Delete
    } else {
        OperationType::Unknown
    }
}

/// What classification decides on the statement text: trim Unicode
/// whitespace at both ends, take the first token up to ASCII whitespace,
/// case-fold it, and look it up among the recognized verbs.
pub open spec fn spec_classify(s: Seq<char>) -> OperationType {
    token_kind(folded_codes(leading_token(spec_trim(s))))
}

fn is_unicode_space_char(c: char) -> (r: bool)
    ensures
        r == is_unicode_space(c),
{
    let u = c as u32;
    u == 0x09 || u == 0x0A || u == 0x0B || u == 0x0C || u == 0x0D || u == 0x20 || u == 0x85 || u
        == 0xA0 || u == 0x1680 || (0x2000 <= u && u <= 0x200A) || u == 0x2028 || u == 0x2029 || u
        == 0x202F || u == 0x205F || u == 0x3000
}

fn is_ascii_space_char(c: char) -> (r: bool)
    ensures
        r == is_ascii_space(c),
{
    let u = c as u32;
    u == 0x09 || u == 0x0A || u == 0x0C || u == 0x0D || u == 0x20
}

fn fold_code_char(c: char) -> (r: u32)
    ensures
        r == fold_code(c),
{
    let u = c as u32;
    if 65 <= u && u <= 90 {
        u + 32
    } else {
        u
    }
}

proof fn lemma_trim_start(s: Seq<char>, k: int)
    requires
        0 <= k <= s.len(),
        forall|j: int| 0 <= j < k ==> is_unicode_space(s[j]),
        k < s.len() ==> !is_unicode_space(s[k]),
    ensures
        trim_start(s) == s.subrange(k, s.len() as int),
    decreases k,
{
    if k == 0 {
        assert(s.subrange(0, s.len() as int) =~= s);
    } else {
        let d = s.drop_first();
        assert(forall|j: int| 0 <= j < k - 1 ==> is_unicode_space(d[j]));
        lemma_trim_start(d, k - 1);
        assert(d.subrange(k - 1, d.len() as int) =~= s.subrange(k, s.len() as int));
    }
}

proof fn lemma_trim_end(s: Seq<char>, e: int)
    requires
        0 <= e <= s.len(),
        forall|j: int| e <= j < s.len() ==> is_unicode_space(s[j]),
        e > 0 ==> !is_unicode_space(s[e - 1]),
    ensures
        trim_end(s) == s.subrange(0, e),
    decreases s.len(),
{
    if e == s.len() {
        assert(s.subrange(0, e) =~= s);
    } else {
        let d = s.drop_last();
        assert(forall|j: int| e <= j < d.len() ==> is_unicode_space(d[j]));
        lemma_trim_end(d, e);
        assert(d.subrange(0, e) =~= s.subrange(0, e));
    }
}

proof fn lemma_leading_token(s: Seq<char>, t: int)
    requires
        0 <= t <= s.len(),
        forall|j: int| 0 <= j < t ==> !is_ascii_space(s[j]),
        t < s.len() ==> is_ascii_space(s[t]),
    ensures
        leading_token(s) == s.subrange(0, t),
    decreases t,
{
    if t == 0 {
        assert(s.subrange(0, 0) =~= Seq::<char>::empty());
    } else {
        let d = s.drop_first();
        assert(forall|j: int| 0 <= j < t - 1 ==> !is_ascii_space(d[j]));
        lemma_leading_token(d, t - 1);
        assert(seq![s[0]] + d.subrange(0, t - 1) =~= s.subrange(0, t));
    }
}

fn classify_token(t: &Vec<u32>) -> (r: OperationType)
    ensures
        r == token_kind(t@),
{
    if t.len() != 6 {
        return OperationType::Unknown;
    }
    let b0 = t[0];
    let b1 = t[1];
    let b2 = t[2];
    let b3 = t[3];
    let b4 = t[4];
    let b5 = t[5];
    if b0 == 115 && b1 == 101 && b2 == 108 && b3 == 101 && b4 == 99 && b5 == 116 {
        proof {
            assert(t@ =~= select_keyword());
        }
        OperationType::Select
    } else if b0 == 105 && b1 == 110 && b2 == 115 && b3 == 101 && b4 == 114 && b5 == 116 {
        proof {
            assert(t@ =~= insert_keyword());
        }
        OperationType::Insert
    } else if b0 == 117 && b1 == 112 && b2 == 100 && b3 == 97 && b4 == 116 && b5 == 101 {
        proof {
            assert(t@ =~= update_keyword());
        }
        OperationType::Update
    } else if b0 == 100 && b1 == 101 && b2 == 108 && b3 == 101 && b4 == 116 && b5 == 101 {
        proof {
            assert(t@ =~= delete_keyword());
        }
        OperationType::Delete
    } else {
        OperationType::Unknown
    }
}

/// Classify SQL text by its first keyword, as the executor routes it:
/// trim Unicode whitespace at both ends, take the run up to the next
/// ASCII whitespace, case-fold it, and look it up among the recognized
/// verbs.
pub fn identify_operation_type(query: &str) -> (r: OperationType)
    ensures
        r == spec_classify(query@),
{
    let n = query.unicode_len();
    let mut start: usize = 0;
    while start < n && is_unicode_space_char(query.get_char(start))
        invariant
            n == query@.len(),
            start <= n,
            forall|j: int| 0 <= j < start ==> is_unicode_space(query@[j]),
        decreases n - start,
    {
        start = start + 1;
    }
    proof {
        lemma_trim_start(query@, start as int);
    }
    let mut end: usize = n;
    while end > start && is_unicode_space_char(query.get_char(end - 1))
        invariant
            n == query@.len(),
            start <= end <= n,
            forall|j: int| end <= j < n ==> is_unicode_space(query@[j]),
        decreases end,
    {
        end = end - 1;
    }
    proof {
        let after_start = query@.subrange(start as int, n as int);
        assert(forall|j: int|
            end - start <= j < after_start.len() ==> is_unicode_space(after_start[j]));
        lemma_trim_end(after_start, end - start);
        assert(after_start.subrange(0, end - start) =~= query@.subrange(
            start as int,
            end as int,
        ));
    }
    let mut tok_end: usize = start;
    while tok_end < end && !is_ascii_space_char(query.get_char(tok_end))
        invariant
            n == query@.len(),
            start <= tok_end <= end <= n,
            forall|j: int| start <= j < tok_end ==> !is_ascii_space(query@[j]),
        decreases end - tok_end,
    {
        tok_end = tok_end + 1;
    }
    proof {
        let trimmed = query@.subrange(start as int, end as int);
        assert(forall|j: int| 0 <= j < tok_end - start ==> !is_ascii_space(trimmed[j]));
        lemma_leading_token(trimmed, tok_end - start);
        assert(trimmed.subrange(0, tok_end - start) =~= query@.subrange(
            start as int,
            tok_end as int,
        ));
    }
    let mut tok: Vec<u32> = Vec::new();
    let mut i: usize = start;
    while i < tok_end
        invariant
            n == query@.len(),
            start <= i <= tok_end <= n,
            tok@ == folded_codes(query@.subrange(start as int, i as int)),
        decreases tok_end - i,
    {
        tok.push(fold_code_char(query.get_char(i)));
        proof {
            assert(query@.subrange(start as int, i + 1) =~= query@.subrange(
                start as int,
                i as int,
            ).push(query@[i as int]));
            assert(folded_codes(query@.subrange(start as int, i + 1)) =~= folded_codes(
                query@.subrange(start as int, i as int),
            ).push(fold_code(query@[i as int])));
        }
        i = i + 1;
    }
    proof {
        assert(tok@ == folded_codes(leading_token(spec_trim(query@))));
    }
    classify_token(&tok)
}

} // verus!
