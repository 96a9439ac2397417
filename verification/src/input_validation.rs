//! Validation of the user-supplied fields of a cluster record.
//!
//! Every validator is a pure function. Its contract is stated over a spec
//! function of the same shape (`checked_name`, `checked_description`,
//! `checked_tags`) that says, for every input, which canonical value is
//! accepted or which rule is violated first.

use vstd::prelude::*;
use vstd::std_specs::iter::IteratorSpec;
use vstd::utf8::encode_utf8;

verus! {

/// Longest accepted cluster display name, in bytes of UTF-8.
pub const MAX_CLUSTER_NAME_LEN: usize = 100;

/// Longest accepted context name, in bytes of UTF-8.
pub const MAX_CONTEXT_NAME_LEN: usize = 253;

/// Longest accepted description, in bytes of UTF-8.
pub const MAX_DESCRIPTION_LEN: usize = 1000;

/// Largest number of tags on one cluster.
pub const MAX_TAGS_COUNT: usize = 20;

/// Longest accepted tag, in bytes of UTF-8.
pub const MAX_TAG_LEN: usize = 32;

// ---------------------------------------------------------------------------
// Character classes
// ---------------------------------------------------------------------------

/// ASCII letters and digits.
pub open spec fn ascii_alphanumeric(c: char) -> bool {
    ('a' <= c && c <= 'z') || ('A' <= c && c <= 'Z') || ('0' <= c && c <= '9')
}

/// Characters accepted in cluster and context names.
pub open spec fn name_char_allowed(c: char) -> bool {
    ascii_alphanumeric(c) || c == ' ' || c == '-' || c == '_' || c == '.' || c == ':' || c == '/'
        || c == '@' || c == '+' || c == '(' || c == ')' || c == '[' || c == ']'
}

/// Characters accepted in tags.
pub open spec fn tag_char_allowed(c: char) -> bool {
    ascii_alphanumeric(c) || c == '-' || c == '_' || c == '.' || c == ':' || c == '/'
}

/// The characters with the Unicode property `White_Space`.
pub open spec fn whitespace(c: char) -> bool {
    ('\u{0009}' <= c && c <= '\u{000D}') || c == '\u{0020}' || c == '\u{0085}' || c == '\u{00A0}'
        || c == '\u{1680}' || ('\u{2000}' <= c && c <= '\u{200A}') || c == '\u{2028}' || c
        == '\u{2029}' || c == '\u{202F}' || c == '\u{205F}' || c == '\u{3000}'
}

/// The characters of the Unicode general category `Cc`.
pub open spec fn control(c: char) -> bool {
    c <= '\u{001F}' || ('\u{007F}' <= c && c <= '\u{009F}')
}

/// A control character that a description may not hold: any but newline,
/// carriage return and tab.
pub open spec fn forbidden_control(c: char) -> bool {
    control(c) && c != '\n' && c != '\r' && c != '\t'
}

pub open spec fn all_name_chars(s: Seq<char>) -> bool {
    forall|i: int| 0 <= i < s.len() ==> name_char_allowed(#[trigger] s[i])
}

pub open spec fn all_tag_chars(s: Seq<char>) -> bool {
    forall|i: int| 0 <= i < s.len() ==> tag_char_allowed(#[trigger] s[i])
}

pub open spec fn has_forbidden_control(s: Seq<char>) -> bool {
    exists|i: int| 0 <= i < s.len() && forbidden_control(#[trigger] s[i])
}

fn is_ascii_alphanumeric(c: char) -> (b: bool)
    ensures
        b == ascii_alphanumeric(c),
{
    ('a' <= c && c <= 'z') || ('A' <= c && c <= 'Z') || ('0' <= c && c <= '9')
}

pub fn is_allowed_name_char(c: char) -> (b: bool)
    ensures
        b == name_char_allowed(c),
{
    is_ascii_alphanumeric(c) || c == ' ' || c == '-' || c == '_' || c == '.' || c == ':' || c
        == '/' || c == '@' || c == '+' || c == '(' || c == ')' || c == '[' || c == ']'
}

pub fn is_allowed_tag_char(c: char) -> (b: bool)
    ensures
        b == tag_char_allowed(c),
{
    is_ascii_alphanumeric(c) || c == '-' || c == '_' || c == '.' || c == ':' || c == '/'
}

fn is_whitespace(c: char) -> (b: bool)
    ensures
        b == whitespace(c),
{
    ('\u{0009}' <= c && c <= '\u{000D}') || c == '\u{0020}' || c == '\u{0085}' || c == '\u{00A0}'
        || c == '\u{1680}' || ('\u{2000}' <= c && c <= '\u{200A}') || c == '\u{2028}' || c
        == '\u{2029}' || c == '\u{202F}' || c == '\u{205F}' || c == '\u{3000}'
}

fn is_forbidden_control(c: char) -> (b: bool)
    ensures
        b == forbidden_control(c),
{
    (c <= '\u{001F}' || ('\u{007F}' <= c && c <= '\u{009F}')) && c != '\n' && c != '\r' && c
        != '\t'
}

// ---------------------------------------------------------------------------
// Trimming and length
// ---------------------------------------------------------------------------

/// `s` without its leading whitespace.
pub open spec fn trim_start(s: Seq<char>) -> Seq<char>
    decreases s.len(),
{
    if s.len() > 0 && whitespace(s.first()) {
        trim_start(s.drop_first())
    } else {
        s
    }
}

/// `s` without its trailing whitespace.
pub open spec fn trim_end(s: Seq<char>) -> Seq<char>
    decreases s.len(),
{
    if s.len() > 0 && whitespace(s.last()) {
        trim_end(s.drop_last())
    } else {
        s
    }
}

/// `s` without leading and trailing whitespace: the canonical form of a field.
pub open spec fn trimmed(s: Seq<char>) -> Seq<char> {
    trim_end(trim_start(s))
}

/// Length of `s` in bytes of UTF-8, the unit of every length limit here.
pub open spec fn byte_len(s: Seq<char>) -> nat {
    encode_utf8(s).len()
}

/// A sequence is in canonical form when trimming leaves it as it is.
pub open spec fn is_trimmed(s: Seq<char>) -> bool {
    s.len() == 0 || (!whitespace(s.first()) && !whitespace(s.last()))
}

proof fn lemma_trim_start_of_trimmed(s: Seq<char>)
    requires
        is_trimmed(s),
    ensures
        trim_start(s) == s,
        trim_end(s) == s,
{
}

proof fn lemma_trim_start_shape(s: Seq<char>)
    ensures
        trim_start(s).len() <= s.len(),
        trim_start(s) == s.subrange(s.len() - trim_start(s).len(), s.len() as int),
        trim_start(s).len() > 0 ==> !whitespace(trim_start(s).first()),
    decreases s.len(),
{
    if s.len() > 0 && whitespace(s.first()) {
        let rest = s.drop_first();
        lemma_trim_start_shape(rest);
        let k = rest.len() - trim_start(rest).len();
        assert(rest.subrange(k, rest.len() as int) =~= s.subrange(k + 1, s.len() as int));
    } else {
        assert(s.subrange(0, s.len() as int) =~= s);
    }
}

proof fn lemma_trim_end_shape(s: Seq<char>)
    ensures
        trim_end(s).len() <= s.len(),
        trim_end(s) == s.subrange(0, trim_end(s).len() as int),
        trim_end(s).len() > 0 ==> !whitespace(trim_end(s).last()),
    decreases s.len(),
{
    if s.len() > 0 && whitespace(s.last()) {
        let rest = s.drop_last();
        lemma_trim_end_shape(rest);
        assert(rest.subrange(0, trim_end(rest).len() as int) =~= s.subrange(
            0,
            trim_end(rest).len() as int,
        ));
    } else {
        assert(s.subrange(0, s.len() as int) =~= s);
    }
}

/// Trimming yields a canonical form, and a canonical form is left alone:
/// `trimmed` is idempotent.
pub proof fn lemma_trimmed_is_canonical(s: Seq<char>)
    ensures
        is_trimmed(trimmed(s)),
        trimmed(trimmed(s)) == trimmed(s),
{
    let a = trim_start(s);
    lemma_trim_start_shape(s);
    lemma_trim_end_shape(a);
    let t = trim_end(a);
    if t.len() > 0 {
        assert(t.first() == a.first());
    }
    lemma_trim_start_of_trimmed(t);
}

/// The positions between which the canonical form of `chars` lies.
fn trim_bounds(chars: &Vec<char>) -> (b: (usize, usize))
    ensures
        b.0 <= b.1 <= chars.len(),
        chars@.subrange(b.0 as int, b.1 as int) == trimmed(chars@),
{
    let n = chars.len();
    let mut start: usize = 0;
    proof {
        assert(chars@.subrange(0, n as int) =~= chars@);
    }
    while start < n && is_whitespace(chars[start])
        invariant
            start <= n == chars.len(),
            trim_start(chars@) == trim_start(chars@.subrange(start as int, n as int)),
        decreases n - start,
    {
        proof {
            let cur = chars@.subrange(start as int, n as int);
            assert(cur.drop_first() =~= chars@.subrange(start + 1, n as int));
        }
        start += 1;
    }
    let mut end: usize = n;
    while end > start && is_whitespace(chars[end - 1])
        invariant
            start <= end <= n == chars.len(),
            trim_start(chars@) == chars@.subrange(start as int, n as int),
            trimmed(chars@) == trim_end(chars@.subrange(start as int, end as int)),
        decreases end - start,
    {
        proof {
            let cur = chars@.subrange(start as int, end as int);
            assert(cur.drop_last() =~= chars@.subrange(start as int, end - 1));
        }
        end -= 1;
    }
    (start, end)
}

fn to_chars(s: &str) -> (v: Vec<char>)
    ensures
        v@ == s@,
{
    let mut v: Vec<char> = Vec::new();
    for c in it: s.chars()
        invariant
            v@ == it.seq().take(it.index() as int),
            it.seq() == s@,
    {
        v.push(c);
    }
    v
}

/// The canonical form of `s`, as a slice of it.
fn trim_str(s: &str) -> (t: &str)
    ensures
        t@ == trimmed(s@),
{
    let chars = to_chars(s);
    let (start, end) = trim_bounds(&chars);
    s.substring_char(start, end)
}

fn only_name_chars(s: &str) -> (b: bool)
    ensures
        b == all_name_chars(s@),
{
    let chars = to_chars(s);
    let mut i: usize = 0;
    while i < chars.len()
        invariant
            i <= chars.len(),
            chars@ == s@,
            forall|k: int| 0 <= k < i ==> name_char_allowed(#[trigger] s@[k]),
        decreases chars.len() - i,
    {
        if !is_allowed_name_char(chars[i]) {
            return false;
        }
        i += 1;
    }
    true
}

fn only_tag_chars(s: &str) -> (b: bool)
    ensures
        b == all_tag_chars(s@),
{
    let chars = to_chars(s);
    let mut i: usize = 0;
    while i < chars.len()
        invariant
            i <= chars.len(),
            chars@ == s@,
            forall|k: int| 0 <= k < i ==> tag_char_allowed(#[trigger] s@[k]),
        decreases chars.len() - i,
    {
        if !is_allowed_tag_char(chars[i]) {
            return false;
        }
        i += 1;
    }
    true
}

fn holds_forbidden_control(s: &str) -> (b: bool)
    ensures
        b == has_forbidden_control(s@),
{
    let chars = to_chars(s);
    let mut i: usize = 0;
    while i < chars.len()
        invariant
            i <= chars.len(),
            chars@ == s@,
            forall|k: int| 0 <= k < i ==> !forbidden_control(#[trigger] s@[k]),
        decreases chars.len() - i,
    {
        if is_forbidden_control(chars[i]) {
            return true;
        }
        i += 1;
    }
    false
}

// ---------------------------------------------------------------------------
// Names
// ---------------------------------------------------------------------------

/// The rule that a cluster or context name violates.
#[derive(Clone, Copy, Debug, PartialEq, Eq, Structural)]
pub enum NameRejection {
    /// Nothing is left after trimming.
    Empty,
    /// The canonical form is longer than the limit.
    TooLong,
    /// The canonical form holds a character outside the allowed set.
    InvalidCharacters,
}

/// What validation makes of a name under a length limit: its canonical form,
/// or the first rule it violates (emptiness, then length, then characters).
pub open spec fn checked_name(raw: Seq<char>, max_len: nat) -> Result<Seq<char>, NameRejection> {
    let t = trimmed(raw);
    if t.len() == 0 {
        Err(NameRejection::Empty)
    } else if byte_len(t) > max_len {
        Err(NameRejection::TooLong)
    } else if !all_name_chars(t) {
        Err(NameRejection::InvalidCharacters)
    } else {
        Ok(t)
    }
}

pub open spec fn cluster_name_message(e: NameRejection) -> Seq<char> {
    match e {
        NameRejection::Empty => "Cluster name cannot be empty"@,
        NameRejection::TooLong => "Cluster name must be 100 characters or fewer"@,
        NameRejection::InvalidCharacters =>
            "Cluster name contains invalid characters. Allowed: letters, numbers, space, - _ . : / @ + ( ) [ ]"@,
    }
}

pub open spec fn context_name_message(e: NameRejection) -> Seq<char> {
    match e {
        NameRejection::Empty => "Context name cannot be empty"@,
        NameRejection::TooLong => "Context name must be 253 characters or fewer"@,
        NameRejection::InvalidCharacters =>
            "Context name contains invalid characters. Allowed: letters, numbers, space, - _ . : / @ + ( ) [ ]"@,
    }
}

/// The outcome of validating a cluster name: the stored form or the message.
pub open spec fn cluster_name_outcome(raw: Seq<char>) -> Result<Seq<char>, Seq<char>> {
    match checked_name(raw, MAX_CLUSTER_NAME_LEN as nat) {
        Ok(t) => Ok(t),
        Err(e) => Err(cluster_name_message(e)),
    }
}

/// The outcome of validating a context name: the stored form or the message.
pub open spec fn context_name_outcome(raw: Seq<char>) -> Result<Seq<char>, Seq<char>> {
    match checked_name(raw, MAX_CONTEXT_NAME_LEN as nat) {
        Ok(t) => Ok(t),
        Err(e) => Err(context_name_message(e)),
    }
}

/// A validator's result, read as text.
pub open spec fn text_outcome(r: Result<String, String>) -> Result<Seq<char>, Seq<char>> {
    match r {
        Ok(v) => Ok(v@),
        Err(m) => Err(m@),
    }
}

fn check_name(raw: &str, max_len: usize) -> (r: Result<String, NameRejection>)
    ensures
        match checked_name(raw@, max_len as nat) {
            Ok(t) => r matches Ok(v) && v@ == t,
            Err(e) => r matches Err(x) && x == e,
        },
{
    let t = trim_str(raw);
    if t.is_empty() {
        return Err(NameRejection::Empty);
    }
    if t.as_bytes().len() > max_len {
        return Err(NameRejection::TooLong);
    }
    if !only_name_chars(t) {
        return Err(NameRejection::InvalidCharacters);
    }
    Ok(t.to_owned())
}

/// Validates a cluster display name and returns its canonical (trimmed) form.
pub fn validate_cluster_name(name: String) -> (r: Result<String, String>)
    ensures
        text_outcome(r) == cluster_name_outcome(name@),
{
    match check_name(name.as_str(), MAX_CLUSTER_NAME_LEN) {
        Ok(v) => Ok(v),
        Err(NameRejection::Empty) => Err(String::from_str("Cluster name cannot be empty")),
        Err(NameRejection::TooLong) => Err(
            String::from_str("Cluster name must be 100 characters or fewer"),
        ),
        Err(NameRejection::InvalidCharacters) => Err(
            String::from_str(
                "Cluster name contains invalid characters. Allowed: letters, numbers, space, - _ . : / @ + ( ) [ ]",
            ),
        ),
    }
}

/// Validates a context name and returns its canonical (trimmed) form.
pub fn validate_context_name(context_name: String) -> (r: Result<String, String>)
    ensures
        text_outcome(r) == context_name_outcome(context_name@),
{
    match check_name(context_name.as_str(), MAX_CONTEXT_NAME_LEN) {
        Ok(v) => Ok(v),
        Err(NameRejection::Empty) => Err(String::from_str("Context name cannot be empty")),
        Err(NameRejection::TooLong) => Err(
            String::from_str("Context name must be 253 characters or fewer"),
        ),
        Err(NameRejection::InvalidCharacters) => Err(
            String::from_str(
                "Context name contains invalid characters. Allowed: letters, numbers, space, - _ . : / @ + ( ) [ ]",
            ),
        ),
    }
}

/// An accepted name is the trimmed input, and validating it again accepts it
/// unchanged: validation is idempotent on what it stores.
pub proof fn law_accepted_name_is_canonical(raw: Seq<char>, max_len: nat)
    requires
        checked_name(raw, max_len) is Ok,
    ensures
        checked_name(raw, max_len) == Ok::<Seq<char>, NameRejection>(trimmed(raw)),
        checked_name(trimmed(raw), max_len) == checked_name(raw, max_len),
{
    lemma_trimmed_is_canonical(raw);
}

// ---------------------------------------------------------------------------
// Descriptions
// ---------------------------------------------------------------------------

/// The rule that a description violates.
#[derive(Clone, Copy, Debug, PartialEq, Eq, Structural)]
pub enum DescriptionRejection {
    /// The canonical form is longer than the limit.
    TooLong,
    /// The canonical form holds a control character other than newline,
    /// carriage return or tab.
    ControlCharacter,
}

/// What validation makes of an optional description. An absent or blank one
/// is stored as absent; otherwise the canonical form is stored, unless it is
/// too long or (checked second) holds a forbidden control character.
pub open spec fn checked_description(description: Option<Seq<char>>) -> Result<
    Option<Seq<char>>,
    DescriptionRejection,
> {
    match description {
        None => Ok(None),
        Some(value) => {
            let t = trimmed(value);
            if t.len() == 0 {
                Ok(None)
            } else if byte_len(t) > MAX_DESCRIPTION_LEN as nat {
                Err(DescriptionRejection::TooLong)
            } else if has_forbidden_control(t) {
                Err(DescriptionRejection::ControlCharacter)
            } else {
                Ok(Some(t))
            }
        },
    }
}

pub open spec fn description_message(e: DescriptionRejection) -> Seq<char> {
    match e {
        DescriptionRejection::TooLong => "Description must be 1000 characters or fewer"@,
        DescriptionRejection::ControlCharacter =>
            "Description contains invalid control characters"@,
    }
}

/// The outcome of validating a description: the stored form or the message.
pub open spec fn description_outcome(description: Option<Seq<char>>) -> Result<
    Option<Seq<char>>,
    Seq<char>,
> {
    match checked_description(description) {
        Ok(d) => Ok(d),
        Err(e) => Err(description_message(e)),
    }
}

pub open spec fn optional_text(v: Option<String>) -> Option<Seq<char>> {
    match v {
        Some(s) => Some(s@),
        None => None,
    }
}

/// The result of `validate_description`, read as text.
pub open spec fn optional_text_outcome(r: Result<Option<String>, String>) -> Result<
    Option<Seq<char>>,
    Seq<char>,
> {
    match r {
        Ok(v) => Ok(optional_text(v)),
        Err(m) => Err(m@),
    }
}

/// Validates an optional description. A blank description is stored as absent.
pub fn validate_description(description: Option<String>) -> (r: Result<Option<String>, String>)
    ensures
        optional_text_outcome(r) == description_outcome(optional_text(description)),
{
    let value = match description {
        Some(value) => value,
        None => {
            return Ok(None);
        },
    };
    let t = trim_str(value.as_str());
    if t.is_empty() {
        return Ok(None);
    }
    if t.as_bytes().len() > MAX_DESCRIPTION_LEN {
        return Err(String::from_str("Description must be 1000 characters or fewer"));
    }
    if holds_forbidden_control(t) {
        return Err(String::from_str("Description contains invalid control characters"));
    }
    Ok(Some(t.to_owned()))
}

/// A description whose canonical form holds a control character other than
/// newline, carriage return or tab is rejected.
pub proof fn law_forbidden_control_is_rejected(value: Seq<char>)
    requires
        has_forbidden_control(trimmed(value)),
    ensures
        checked_description(Some(value)) is Err,
        description_outcome(Some(value)) is Err,
{
}

/// A description that is blank after trimming is stored as absent, never as
/// an empty string; and no stored description is empty.
pub proof fn law_blank_description_is_absent(description: Option<Seq<char>>)
    ensures
        description is Some && trimmed(description->Some_0).len() == 0 ==> checked_description(
            description,
        ) == Ok::<Option<Seq<char>>, DescriptionRejection>(None),
        checked_description(description) matches Ok(Some(t)) ==> t.len() > 0 && t == trimmed(
            description->Some_0,
        ),
{
}

// ---------------------------------------------------------------------------
// Tags
// ---------------------------------------------------------------------------

/// The rule that a list of tags violates; a rejected tag is given in its
/// canonical form.
pub enum TagRejection {
    /// More tags than the limit.
    TooMany,
    /// A tag is blank.
    Empty,
    /// A tag is longer than the limit.
    TooLong(Seq<char>),
    /// A tag holds a character outside the allowed set.
    InvalidCharacters(Seq<char>),
    /// A tag equals an earlier one of the same list (compared as stored,
    /// case-sensitively).
    Duplicate(Seq<char>),
}

/// The texts of a list of strings.
pub open spec fn texts(v: Seq<String>) -> Seq<Seq<char>> {
    v.map_values(|s: String| s@)
}

/// The canonical forms of a list of tags, in their order.
pub open spec fn trimmed_all(tags: Seq<Seq<char>>) -> Seq<Seq<char>> {
    tags.map_values(|t: Seq<char>| trimmed(t))
}

/// Whether an earlier tag than the one at `i` has the same canonical form.
pub open spec fn seen_before(tags: Seq<Seq<char>>, i: int) -> bool {
    exists|j: int| 0 <= j < i && trimmed(#[trigger] tags[j]) == trimmed(tags[i])
}

/// A tag on its own terms: not blank, within the limit, of allowed characters.
pub open spec fn well_formed_tag(tag: Seq<char>) -> bool {
    let t = trimmed(tag);
    t.len() > 0 && byte_len(t) <= MAX_TAG_LEN as nat && all_tag_chars(t)
}

/// The rule that the tag at `i` violates, if any: emptiness, then length,
/// then characters, then repetition of an earlier tag.
pub open spec fn tag_rejection(tags: Seq<Seq<char>>, i: int) -> Option<TagRejection> {
    let t = trimmed(tags[i]);
    if t.len() == 0 {
        Some(TagRejection::Empty)
    } else if byte_len(t) > MAX_TAG_LEN as nat {
        Some(TagRejection::TooLong(t))
    } else if !all_tag_chars(t) {
        Some(TagRejection::InvalidCharacters(t))
    } else if seen_before(tags, i) {
        Some(TagRejection::Duplicate(t))
    } else {
        None
    }
}

/// The violation of the first offending tag among the first `upto` tags.
pub open spec fn first_tag_rejection(tags: Seq<Seq<char>>, upto: int) -> Option<TagRejection>
    decreases upto,
{
    if upto <= 0 {
        None
    } else {
        match first_tag_rejection(tags, upto - 1) {
            Some(e) => Some(e),
            None => tag_rejection(tags, upto - 1),
        }
    }
}

/// What validation makes of a list of tags: the canonical forms in the order
/// given, or the violation met first (the count, then tag by tag).
pub open spec fn checked_tags(tags: Seq<Seq<char>>) -> Result<Seq<Seq<char>>, TagRejection> {
    if tags.len() > MAX_TAGS_COUNT as nat {
        Err(TagRejection::TooMany)
    } else {
        match first_tag_rejection(tags, tags.len() as int) {
            Some(e) => Err(e),
            None => Ok(trimmed_all(tags)),
        }
    }
}

pub open spec fn tag_message(e: TagRejection) -> Seq<char> {
    match e {
        TagRejection::TooMany => "At most 20 tags are allowed"@,
        TagRejection::Empty => "Tags cannot be empty"@,
        TagRejection::TooLong(t) => "Tag '"@ + t + "' exceeds 32 characters"@,
        TagRejection::InvalidCharacters(t) => "Tag '"@ + t
            + "' contains invalid characters. Allowed: letters, numbers, - _ . : /"@,
        TagRejection::Duplicate(t) => "Duplicate tag '"@ + t + "'"@,
    }
}

/// The outcome of validating a list of tags: the stored list or the message.
pub open spec fn tags_outcome(tags: Seq<Seq<char>>) -> Result<Seq<Seq<char>>, Seq<char>> {
    match checked_tags(tags) {
        Ok(v) => Ok(v),
        Err(e) => Err(tag_message(e)),
    }
}

/// The result of `validate_tags`, read as text.
pub open spec fn texts_outcome(r: Result<Vec<String>, String>) -> Result<
    Seq<Seq<char>>,
    Seq<char>,
> {
    match r {
        Ok(v) => Ok(texts(v@)),
        Err(m) => Err(m@),
    }
}

fn holds_text(list: &Vec<String>, t: &String) -> (b: bool)
    ensures
        b == exists|j: int| 0 <= j < list.len() && (#[trigger] list@[j])@ == t@,
{
    let mut j: usize = 0;
    while j < list.len()
        invariant
            j <= list.len(),
            forall|k: int| 0 <= k < j ==> (#[trigger] list@[k])@ != t@,
        decreases list.len() - j,
    {
        if list[j] == *t {
            return true;
        }
        j += 1;
    }
    false
}

/// Validates a list of tags: at most twenty, each trimmed, none blank, too
/// long, of other characters, or repeated. The order given is kept.
pub fn validate_tags(tags: Vec<String>) -> (r: Result<Vec<String>, String>)
    ensures
        texts_outcome(r) == tags_outcome(texts(tags@)),
{
    let ghost all = texts(tags@);
    if tags.len() > MAX_TAGS_COUNT {
        return Err(String::from_str("At most 20 tags are allowed"));
    }
    let mut validated: Vec<String> = Vec::new();
    let mut i: usize = 0;
    while i < tags.len()
        invariant
            i <= tags.len() <= MAX_TAGS_COUNT,
            all == texts(tags@),
            first_tag_rejection(all, i as int) is None,
            validated@.len() == i,
            forall|k: int| 0 <= k < i ==> (#[trigger] validated@[k])@ == trimmed(all[k]),
        decreases tags.len() - i,
    {
        let t = trim_str(tags[i].as_str());
        assert(t@ == trimmed(all[i as int]));
        proof {
            if tag_rejection(all, i as int) is Some {
                lemma_first_rejection_at(all, i as int, all.len() as int);
            }
        }
        if t.is_empty() {
            return Err(String::from_str("Tags cannot be empty"));
        }
        if t.as_bytes().len() > MAX_TAG_LEN {
            let mut m = String::from_str("Tag '");
            m.append(t);
            m.append("' exceeds 32 characters");
            return Err(m);
        }
        if !only_tag_chars(t) {
            let mut m = String::from_str("Tag '");
            m.append(t);
            m.append("' contains invalid characters. Allowed: letters, numbers, - _ . : /");
            return Err(m);
        }
        let stored = t.to_owned();
        let repeated = holds_text(&validated, &stored);
        proof {
            if repeated {
                let j = choose|j: int| 0 <= j < validated.len() && (#[trigger] validated@[j])@ == t@;
                assert(trimmed(all[j]) == trimmed(all[i as int]));
            } else {
                assert forall|j: int| 0 <= j < i implies trimmed(#[trigger] all[j]) != trimmed(
                    all[i as int],
                ) by {
                    assert(validated@[j]@ == trimmed(all[j]));
                }
            }
            assert(repeated == seen_before(all, i as int));
            if tag_rejection(all, i as int) is Some {
                lemma_first_rejection_at(all, i as int, all.len() as int);
            }
        }
        if repeated {
            let mut m = String::from_str("Duplicate tag '");
            m.append(t);
            m.append("'");
            return Err(m);
        }
        validated.push(stored);
        i += 1;
    }
    proof {
        assert(texts(validated@) =~= trimmed_all(all));
    }
    Ok(validated)
}

proof fn lemma_rejection_persists(tags: Seq<Seq<char>>, i: int, upto: int)
    requires
        0 <= i < upto,
        tag_rejection(tags, i) is Some,
    ensures
        first_tag_rejection(tags, upto) is Some,
    decreases upto,
{
    if upto - 1 > i {
        lemma_rejection_persists(tags, i, upto - 1);
    }
}

proof fn lemma_no_rejection(tags: Seq<Seq<char>>, upto: int)
    requires
        forall|i: int| 0 <= i < upto ==> tag_rejection(tags, i) is None,
    ensures
        first_tag_rejection(tags, upto) is None,
    decreases upto,
{
    if upto > 0 {
        lemma_no_rejection(tags, upto - 1);
    }
}

proof fn lemma_first_rejection_at(tags: Seq<Seq<char>>, i: int, upto: int)
    requires
        0 <= i < upto,
        first_tag_rejection(tags, i) is None,
        tag_rejection(tags, i) is Some,
    ensures
        first_tag_rejection(tags, upto) == tag_rejection(tags, i),
    decreases upto,
{
    if upto - 1 > i {
        lemma_first_rejection_at(tags, i, upto - 1);
    }
}

/// A list in which two tags have the same canonical form is rejected.
pub proof fn law_repeated_tag_is_rejected(tags: Seq<Seq<char>>, i: int, j: int)
    requires
        0 <= i < j < tags.len(),
        trimmed(tags[i]) == trimmed(tags[j]),
    ensures
        checked_tags(tags) is Err,
{
    assert(seen_before(tags, j));
    assert(tag_rejection(tags, j) is Some);
    lemma_rejection_persists(tags, j, tags.len() as int);
}

/// In a list of at most twenty tags, each well formed, the first tag that
/// repeats an earlier one is reported as a duplicate.
pub proof fn law_repeated_tag_is_reported(tags: Seq<Seq<char>>, j: int)
    requires
        tags.len() <= MAX_TAGS_COUNT,
        forall|k: int| 0 <= k < tags.len() ==> well_formed_tag(#[trigger] tags[k]),
        0 <= j < tags.len(),
        seen_before(tags, j),
        forall|k: int| 0 <= k < j ==> !seen_before(tags, k),
    ensures
        checked_tags(tags) == Err::<Seq<Seq<char>>, TagRejection>(
            TagRejection::Duplicate(trimmed(tags[j])),
        ),
{
    assert forall|k: int| 0 <= k < j implies tag_rejection(tags, k) is None by {
        assert(well_formed_tag(tags[k]));
    }
    assert(well_formed_tag(tags[j]));
    lemma_no_rejection(tags, j);
    lemma_first_rejection_at(tags, j, tags.len() as int);
}

/// A list of at most twenty tags, each well formed and no two with the same
/// canonical form, is accepted, and the stored list keeps the order given.
pub proof fn law_distinct_tags_are_accepted(tags: Seq<Seq<char>>)
    requires
        tags.len() <= MAX_TAGS_COUNT,
        forall|k: int| 0 <= k < tags.len() ==> well_formed_tag(#[trigger] tags[k]),
        forall|i: int, j: int|
            0 <= i < j < tags.len() ==> trimmed(#[trigger] tags[i]) != trimmed(#[trigger] tags[j]),
    ensures
        checked_tags(tags) == Ok::<Seq<Seq<char>>, TagRejection>(trimmed_all(tags)),
        trimmed_all(tags).len() == tags.len(),
        forall|k: int| 0 <= k < tags.len() ==> trimmed_all(tags)[k] == trimmed(tags[k]),
{
    assert forall|k: int| 0 <= k < tags.len() implies tag_rejection(tags, k) is None by {
        assert(well_formed_tag(tags[k]));
        assert(!seen_before(tags, k));
    }
    lemma_no_rejection(tags, tags.len() as int);
}

} // verus!
