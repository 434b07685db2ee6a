//! Finding the parts of a batch line.
//!
//! A frame is one JSON-like object. The scanner below finds the top-level
//! members `cursor`, `events` and `info` and, inside the cursor, the strings
//! `partition` and `event_type`. It never interprets an event: all parts are
//! located as the bytes they occupy in the line.

use vstd::prelude::*;

verus! {

/// The byte `"`.
pub const QUOTE: u8 = 0x22;

/// The byte `\`.
pub const BACKSLASH: u8 = 0x5c;

/// The byte `:`.
pub const COLON: u8 = 0x3a;

/// The byte `,`.
pub const COMMA: u8 = 0x2c;

/// The byte `{`.
pub const OPEN_BRACE: u8 = 0x7b;

/// The byte `}`.
pub const CLOSE_BRACE: u8 = 0x7d;

/// The byte `[`.
pub const OPEN_BRACKET: u8 = 0x5b;

/// The byte `]`.
pub const CLOSE_BRACKET: u8 = 0x5d;

/// Space, tab, line feed and carriage return separate tokens.
pub open spec fn is_ws(b: u8) -> bool {
    b == 0x20 || b == 0x09 || b == 0x0a || b == 0x0d
}

/// `{` and `[` open a nested value.
pub open spec fn is_open(b: u8) -> bool {
    b == OPEN_BRACE || b == OPEN_BRACKET
}

/// `}` and `]` close a nested value.
pub open spec fn is_close(b: u8) -> bool {
    b == CLOSE_BRACE || b == CLOSE_BRACKET
}

/// A scalar (a number, `true`, `null`, ...) runs up to the next of these.
pub open spec fn ends_scalar(b: u8) -> bool {
    is_ws(b) || is_close(b) || b == COMMA
}

/// The first position at or after `i` that holds no whitespace, or the end
/// of the line.
pub open spec fn spec_skip_ws(s: Seq<u8>, i: int) -> int
    decreases s.len() - i,
{
    if 0 <= i < s.len() && is_ws(s[i]) {
        spec_skip_ws(s, i + 1)
    } else {
        i
    }
}

/// For a string whose opening quote stands just before `i`: the position
/// after its closing quote. A backslash takes the byte after it along, so an
/// escaped quote does not end the string. `None` when the line ends first.
pub open spec fn spec_string_end(s: Seq<u8>, i: int) -> Option<int>
    decreases s.len() - i,
{
    if i < 0 || i >= s.len() {
        None
    } else if s[i] == QUOTE {
        Some(i + 1)
    } else if s[i] == BACKSLASH {
        if i + 1 < s.len() {
            spec_string_end(s, i + 2)
        } else {
            None
        }
    } else {
        spec_string_end(s, i + 1)
    }
}

/// For an object or array with `depth` brackets open at `i`: the position
/// after the bracket that closes the outermost of them. Brackets inside
/// strings do not count. `None` when the line ends first.
pub open spec fn spec_nested_end(s: Seq<u8>, i: int, depth: nat) -> Option<int>
    decreases s.len() - i,
{
    if i < 0 || i >= s.len() || depth == 0 {
        None
    } else if s[i] == QUOTE {
        match spec_string_end(s, i + 1) {
            Some(k) => if i < k <= s.len() {
                spec_nested_end(s, k, depth)
            } else {
                None
            },
            None => None,
        }
    } else if is_open(s[i]) {
        spec_nested_end(s, i + 1, depth + 1)
    } else if is_close(s[i]) {
        if depth == 1 {
            Some(i + 1)
        } else {
            spec_nested_end(s, i + 1, (depth - 1) as nat)
        }
    } else {
        spec_nested_end(s, i + 1, depth)
    }
}

/// The first position at or after `i` that ends a scalar, or the end of the
/// line.
pub open spec fn spec_scalar_end(s: Seq<u8>, i: int) -> int
    decreases s.len() - i,
{
    if 0 <= i < s.len() && !ends_scalar(s[i]) {
        spec_scalar_end(s, i + 1)
    } else {
        i
    }
}

/// For a value that starts at `i`: the position after it. A value is a
/// string, an object, an array or a scalar of at least one byte.
pub open spec fn spec_value_end(s: Seq<u8>, i: int) -> Option<int> {
    if i < 0 || i >= s.len() {
        None
    } else if s[i] == QUOTE {
        spec_string_end(s, i + 1)
    } else if is_open(s[i]) {
        spec_nested_end(s, i + 1, 1)
    } else if ends_scalar(s[i]) || s[i] == COLON {
        None
    } else {
        Some(spec_scalar_end(s, i + 1))
    }
}

/// A string that ends, ends after where it began.
pub proof fn lemma_string_end_bounds(s: Seq<u8>, i: int)
    requires
        spec_string_end(s, i).is_some(),
    ensures
        i < spec_string_end(s, i).unwrap() <= s.len(),
    decreases s.len() - i,
{
    if s[i] == QUOTE {
    } else if s[i] == BACKSLASH {
        lemma_string_end_bounds(s, i + 2);
    } else {
        lemma_string_end_bounds(s, i + 1);
    }
}

fn byte_is_ws(b: u8) -> (r: bool)
    ensures
        r == is_ws(b),
{
    b == 0x20 || b == 0x09 || b == 0x0a || b == 0x0d
}

fn byte_is_open(b: u8) -> (r: bool)
    ensures
        r == is_open(b),
{
    b == OPEN_BRACE || b == OPEN_BRACKET
}

fn byte_is_close(b: u8) -> (r: bool)
    ensures
        r == is_close(b),
{
    b == CLOSE_BRACE || b == CLOSE_BRACKET
}

fn byte_ends_scalar(b: u8) -> (r: bool)
    ensures
        r == ends_scalar(b),
{
    byte_is_ws(b) || byte_is_close(b) || b == COMMA
}

/// Moves over whitespace.
pub fn skip_ws(bytes: &[u8], start: usize) -> (end: usize)
    requires
        start <= bytes@.len(),
    ensures
        end == spec_skip_ws(bytes@, start as int),
        start <= end <= bytes@.len(),
{
    let mut i: usize = start;
    while i < bytes.len() && byte_is_ws(bytes[i])
        invariant
            start <= i <= bytes@.len(),
            spec_skip_ws(bytes@, start as int) == spec_skip_ws(bytes@, i as int),
        decreases bytes@.len() - i,
    {
        i += 1;
    }
    i
}

/// Finds the end of a string whose opening quote stands just before
/// `start`.
pub fn string_end(bytes: &[u8], start: usize) -> (end: Option<usize>)
    requires
        start <= bytes@.len(),
    ensures
        match end {
            Some(e) => spec_string_end(bytes@, start as int) == Some(e as int) && start < e
                <= bytes@.len(),
            None => spec_string_end(bytes@, start as int).is_none(),
        },
{
    let mut i: usize = start;
    while i < bytes.len()
        invariant
            start <= i,
            spec_string_end(bytes@, start as int) == spec_string_end(bytes@, i as int),
        decreases bytes@.len() - i,
    {
        let b = bytes[i];
        if b == QUOTE {
            return Some(i + 1);
        } else if b == BACKSLASH {
            if i + 1 < bytes.len() {
                i += 2;
            } else {
                return None;
            }
        } else {
            i += 1;
        }
    }
    None
}

/// Finds the end of an object or array of which `depth` brackets are open
/// at `start`. Each of them took a byte before `start`.
pub fn nested_end(bytes: &[u8], start: usize, depth: usize) -> (end: Option<usize>)
    requires
        depth <= start <= bytes@.len(),
    ensures
        match end {
            Some(e) => spec_nested_end(bytes@, start as int, depth as nat) == Some(e as int)
                && start < e <= bytes@.len(),
            None => spec_nested_end(bytes@, start as int, depth as nat).is_none(),
        },
{
    let mut i: usize = start;
    let mut d: usize = depth;
    while i < bytes.len() && d > 0
        invariant
            start <= i <= bytes@.len(),
            depth <= start,
            d <= depth + (i - start),
            spec_nested_end(bytes@, start as int, depth as nat) == spec_nested_end(
                bytes@,
                i as int,
                d as nat,
            ),
        decreases bytes@.len() - i,
    {
        let b = bytes[i];
        if b == QUOTE {
            match string_end(bytes, i + 1) {
                Some(k) => {
                    i = k;
                },
                None => {
                    return None;
                },
            }
        } else if byte_is_open(b) {
            d += 1;
            i += 1;
        } else if byte_is_close(b) {
            if d == 1 {
                return Some(i + 1);
            }
            d -= 1;
            i += 1;
        } else {
            i += 1;
        }
    }
    None
}

/// Moves to the end of a scalar.
pub fn scalar_end(bytes: &[u8], start: usize) -> (end: usize)
    requires
        start <= bytes@.len(),
    ensures
        end == spec_scalar_end(bytes@, start as int),
        start <= end <= bytes@.len(),
{
    let mut i: usize = start;
    while i < bytes.len() && !byte_ends_scalar(bytes[i])
        invariant
            start <= i <= bytes@.len(),
            spec_scalar_end(bytes@, start as int) == spec_scalar_end(bytes@, i as int),
        decreases bytes@.len() - i,
    {
        i += 1;
    }
    i
}

/// Finds the end of the value that starts at `start`.
pub fn value_end(bytes: &[u8], start: usize) -> (end: Option<usize>)
    requires
        start <= bytes@.len(),
    ensures
        match end {
            Some(e) => spec_value_end(bytes@, start as int) == Some(e as int) && start < e
                <= bytes@.len(),
            None => spec_value_end(bytes@, start as int).is_none(),
        },
{
    if start >= bytes.len() {
        return None;
    }
    let b = bytes[start];
    if b == QUOTE {
        string_end(bytes, start + 1)
    } else if byte_is_open(b) {
        nested_end(bytes, start + 1, 1)
    } else if byte_ends_scalar(b) || b == COLON {
        None
    } else {
        Some(scalar_end(bytes, start + 1))
    }
}

/// A stretch of the line, from `start` up to but without `end`.
pub struct Span {
    pub start: int,
    pub end: int,
}

/// Where one member of an object lies: its key, without the quotes, and its
/// value.
pub struct MemberSpan {
    pub key: Span,
    pub value: Span,
}

/// The executable form of a [`MemberSpan`].
#[derive(Clone, Copy, Debug)]
pub struct Member {
    pub key_start: usize,
    pub key_end: usize,
    pub value_start: usize,
    pub value_end: usize,
}

impl View for Member {
    type V = MemberSpan;

    open spec fn view(&self) -> MemberSpan {
        MemberSpan {
            key: Span { start: self.key_start as int, end: self.key_end as int },
            value: Span { start: self.value_start as int, end: self.value_end as int },
        }
    }
}

/// The spans that a list of members stands for.
pub open spec fn spans(members: Seq<Member>) -> Seq<MemberSpan> {
    members.map_values(|m: Member| m@)
}

/// Puts the members already read in front of those still to come.
pub open spec fn prepend_members(
    head: Seq<MemberSpan>,
    tail: Option<(Seq<MemberSpan>, int)>,
) -> Option<(Seq<MemberSpan>, int)> {
    match tail {
        Some((rest, end)) => Some((head + rest, end)),
        None => None,
    }
}

/// The members of an object from the key that starts at `i` on, and the
/// position after the object's closing brace. Each member is a string key, a
/// colon and a value; commas separate members; whitespace may stand between
/// all of these. `None` when the bytes from `i` on are not of that form.
pub open spec fn spec_members(s: Seq<u8>, i: int) -> Option<(Seq<MemberSpan>, int)>
    decreases s.len() - i,
{
    if i < 0 || i >= s.len() || s[i] != QUOTE {
        None
    } else {
        match spec_string_end(s, i + 1) {
            None => None,
            Some(key_end) => {
                let colon = spec_skip_ws(s, key_end);
                if colon < 0 || colon >= s.len() || s[colon] != COLON {
                    None
                } else {
                    let value_start = spec_skip_ws(s, colon + 1);
                    match spec_value_end(s, value_start) {
                        None => None,
                        Some(value_end) => {
                            let next = spec_skip_ws(s, value_end);
                            let member = MemberSpan {
                                key: Span { start: i + 1, end: key_end - 1 },
                                value: Span { start: value_start, end: value_end },
                            };
                            if next < 0 || next >= s.len() {
                                None
                            } else if s[next] == CLOSE_BRACE {
                                Some((seq![member], next + 1))
                            } else if s[next] == COMMA {
                                let after = spec_skip_ws(s, next + 1);
                                if i < after <= s.len() {
                                    prepend_members(seq![member], spec_members(s, after))
                                } else {
                                    None
                                }
                            } else {
                                None
                            }
                        },
                    }
                }
            },
        }
    }
}

/// The members of the object whose opening brace stands at `i`, and the
/// position after its closing brace.
pub open spec fn spec_object(s: Seq<u8>, i: int) -> Option<(Seq<MemberSpan>, int)> {
    if i < 0 || i >= s.len() || s[i] != OPEN_BRACE {
        None
    } else {
        let first = spec_skip_ws(s, i + 1);
        if 0 <= first < s.len() && s[first] == CLOSE_BRACE {
            Some((Seq::<MemberSpan>::empty(), first + 1))
        } else {
            spec_members(s, first)
        }
    }
}

/// Whether every span lies within the line, key before value, and every
/// value ends where a value that starts there does.
pub open spec fn members_within(s: Seq<u8>, members: Seq<MemberSpan>) -> bool {
    forall|k: int|
        0 <= k < members.len() ==> {
            let m = #[trigger] members[k];
            &&& 0 <= m.key.start <= m.key.end < m.value.start < m.value.end <= s.len()
            &&& spec_value_end(s, m.value.start) == Some(m.value.end)
        }
}

/// Reads the members of an object from the key at `start` on.
pub fn members(bytes: &[u8], start: usize) -> (r: Option<(Vec<Member>, usize)>)
    requires
        start <= bytes@.len(),
    ensures
        match r {
            Some((list, end)) => spec_members(bytes@, start as int) == Some(
                (spans(list@), end as int),
            ) && start < end <= bytes@.len() && members_within(bytes@, spans(list@)),
            None => spec_members(bytes@, start as int).is_none(),
        },
{
    let mut list: Vec<Member> = Vec::new();
    let mut i: usize = start;
    loop
        invariant
            start <= i <= bytes@.len(),
            spec_members(bytes@, start as int) == prepend_members(
                spans(list@),
                spec_members(bytes@, i as int),
            ),
            members_within(bytes@, spans(list@)),
        decreases bytes@.len() - i,
    {
        if i >= bytes.len() || bytes[i] != QUOTE {
            return None;
        }
        let key_end = match string_end(bytes, i + 1) {
            Some(k) => k,
            None => {
                return None;
            },
        };
        let colon = skip_ws(bytes, key_end);
        if colon >= bytes.len() || bytes[colon] != COLON {
            return None;
        }
        let value_start = skip_ws(bytes, colon + 1);
        let value_end = match value_end(bytes, value_start) {
            Some(e) => e,
            None => {
                return None;
            },
        };
        let next = skip_ws(bytes, value_end);
        if next >= bytes.len() {
            return None;
        }
        let member = Member { key_start: i + 1, key_end: key_end - 1, value_start, value_end };
        let ghost before = list@;
        if bytes[next] == CLOSE_BRACE {
            list.push(member);
            proof {
                assert(spans(list@) =~= spans(before) + seq![member@]);
            }
            return Some((list, next + 1));
        } else if bytes[next] == COMMA {
            let after = skip_ws(bytes, next + 1);
            list.push(member);
            proof {
                assert(spans(list@) =~= spans(before) + seq![member@]);
                match spec_members(bytes@, after as int) {
                    Some((rest, end)) => {
                        assert(spans(before) + (seq![member@] + rest) =~= spans(list@) + rest);
                    },
                    None => {},
                }
            }
            i = after;
        } else {
            return None;
        }
    }
}

/// Reads the members of the object whose opening brace stands at `start`.
pub fn object(bytes: &[u8], start: usize) -> (r: Option<(Vec<Member>, usize)>)
    requires
        start <= bytes@.len(),
    ensures
        match r {
            Some((list, end)) => spec_object(bytes@, start as int) == Some(
                (spans(list@), end as int),
            ) && start < end <= bytes@.len() && members_within(bytes@, spans(list@)),
            None => spec_object(bytes@, start as int).is_none(),
        },
{
    if start >= bytes.len() || bytes[start] != OPEN_BRACE {
        return None;
    }
    let first = skip_ws(bytes, start + 1);
    if first < bytes.len() && bytes[first] == CLOSE_BRACE {
        let list: Vec<Member> = Vec::new();
        proof {
            assert(spans(list@) =~= Seq::<MemberSpan>::empty());
        }
        Some((list, first + 1))
    } else {
        members(bytes, first)
    }
}

/// The key `cursor`.
pub open spec fn cursor_key() -> Seq<u8> {
    seq![0x63u8, 0x75u8, 0x72u8, 0x73u8, 0x6fu8, 0x72u8]
}

/// The key `partition`.
pub open spec fn partition_key() -> Seq<u8> {
    seq![0x70u8, 0x61u8, 0x72u8, 0x74u8, 0x69u8, 0x74u8, 0x69u8, 0x6fu8, 0x6eu8]
}

/// The key `event_type`.
pub open spec fn event_type_key() -> Seq<u8> {
    seq![0x65u8, 0x76u8, 0x65u8, 0x6eu8, 0x74u8, 0x5fu8, 0x74u8, 0x79u8, 0x70u8, 0x65u8]
}

/// The key `events`.
pub open spec fn events_key() -> Seq<u8> {
    seq![0x65u8, 0x76u8, 0x65u8, 0x6eu8, 0x74u8, 0x73u8]
}

/// The key `info`.
pub open spec fn info_key() -> Seq<u8> {
    seq![0x69u8, 0x6eu8, 0x66u8, 0x6fu8]
}

/// The first of `members` whose key is `key`, byte for byte.
pub open spec fn spec_find(s: Seq<u8>, members: Seq<MemberSpan>, key: Seq<u8>) -> Option<
    MemberSpan,
>
    decreases members.len(),
{
    if members.len() == 0 {
        None
    } else if s.subrange(members[0].key.start, members[0].key.end) == key {
        Some(members[0])
    } else {
        spec_find(s, members.drop_first(), key)
    }
}

/// The contents, without the quotes, of the first member named `key`, if
/// its value is a string.
pub open spec fn spec_find_string(s: Seq<u8>, members: Seq<MemberSpan>, key: Seq<u8>) -> Option<
    Span,
> {
    match spec_find(s, members, key) {
        Some(m) => if s[m.value.start] == QUOTE {
            Some(Span { start: m.value.start + 1, end: m.value.end - 1 })
        } else {
            None
        },
        None => None,
    }
}

/// Why a line is no batch line.
#[derive(Clone, Copy, Debug, PartialEq, Eq, Structural)]
pub enum ParseError {
    /// The line is not one object, with nothing but whitespace around it.
    NotAnObject,
    /// The object has no member `cursor`.
    NoCursor,
    /// The member `cursor` is not an object.
    CursorNotAnObject,
    /// The cursor has no string member `partition`.
    NoPartition,
    /// The cursor has no string member `event_type`.
    NoEventType,
    /// The member `events` is not an array.
    EventsNotAnArray,
}

/// Where the parts of a batch line lie.
pub struct FrameSpans {
    pub cursor: Span,
    pub partition: Span,
    pub event_type: Span,
    pub events: Option<Span>,
    pub info: Option<Span>,
}

/// The value of the first member named `key`.
pub open spec fn spec_find_value(s: Seq<u8>, members: Seq<MemberSpan>, key: Seq<u8>) -> Option<
    Span,
> {
    match spec_find(s, members, key) {
        Some(m) => Some(m.value),
        None => None,
    }
}

/// The parts of a cursor whose members are `inner`, put together with the
/// top-level members `top` of the line.
pub open spec fn spec_frame_parts(
    s: Seq<u8>,
    top: Seq<MemberSpan>,
    cursor: Span,
    inner: Seq<MemberSpan>,
) -> Result<FrameSpans, ParseError> {
    match spec_find_string(s, inner, partition_key()) {
        None => Err(ParseError::NoPartition),
        Some(partition) => match spec_find_string(s, inner, event_type_key()) {
            None => Err(ParseError::NoEventType),
            Some(event_type) => {
                let events = spec_find_value(s, top, events_key());
                if events.is_some() && s[events.unwrap().start] != OPEN_BRACKET {
                    Err(ParseError::EventsNotAnArray)
                } else {
                    Ok(
                        FrameSpans {
                            cursor,
                            partition,
                            event_type,
                            events,
                            info: spec_find_value(s, top, info_key()),
                        },
                    )
                }
            },
        },
    }
}

/// What a line is: the places of its parts, or the reason why it is no batch
/// line.
///
/// A batch line is one object. Its member `cursor` is an object that names
/// `partition` and `event_type` as strings. A member `events`, if there is
/// one, is an array; a member `info` may be any value. Where a key occurs
/// twice in an object, the first occurrence counts.
pub open spec fn spec_frame(s: Seq<u8>) -> Result<FrameSpans, ParseError> {
    match spec_object(s, spec_skip_ws(s, 0)) {
        None => Err(ParseError::NotAnObject),
        Some((top, end)) => if spec_skip_ws(s, end) != s.len() {
            Err(ParseError::NotAnObject)
        } else {
            match spec_find_value(s, top, cursor_key()) {
                None => Err(ParseError::NoCursor),
                Some(cursor) => match spec_object(s, cursor.start) {
                    None => Err(ParseError::CursorNotAnObject),
                    Some((inner, inner_end)) => if inner_end != cursor.end {
                        Err(ParseError::CursorNotAnObject)
                    } else {
                        spec_frame_parts(s, top, cursor, inner)
                    },
                },
            }
        },
    }
}

/// Whether the bytes of `bytes` from `start` up to `end` are those of `key`.
pub fn span_is(bytes: &[u8], start: usize, end: usize, key: &[u8]) -> (r: bool)
    requires
        start <= end <= bytes@.len(),
    ensures
        r == (bytes@.subrange(start as int, end as int) == key@),
{
    if end - start != key.len() {
        return false;
    }
    let ghost part = bytes@.subrange(start as int, end as int);
    let mut k: usize = 0;
    while k < key.len()
        invariant
            start <= end <= bytes@.len(),
            end - start == key@.len(),
            part == bytes@.subrange(start as int, end as int),
            k <= key@.len(),
            forall|j: int| 0 <= j < k ==> part[j] == key@[j],
        decreases key@.len() - k,
    {
        if bytes[start + k] != key[k] {
            proof {
                assert(part[k as int] != key@[k as int]);
            }
            return false;
        }
        k += 1;
    }
    proof {
        assert(part =~= key@);
    }
    true
}

/// Looks for the first member named `key`.
pub fn find(bytes: &[u8], list: &Vec<Member>, key: &[u8]) -> (r: Option<Member>)
    requires
        members_within(bytes@, spans(list@)),
    ensures
        match r {
            Some(m) => spec_find(bytes@, spans(list@), key@) == Some(m@) && 0 <= m.key_start
                <= m.key_end < m.value_start < m.value_end <= bytes@.len(),
            None => spec_find(bytes@, spans(list@), key@).is_none(),
        },
{
    let ghost all = spans(list@);
    let mut k: usize = 0;
    proof {
        assert(all.subrange(0, all.len() as int) =~= all);
    }
    while k < list.len()
        invariant
            k <= list@.len(),
            all == spans(list@),
            members_within(bytes@, all),
            spec_find(bytes@, all, key@) == spec_find(
                bytes@,
                all.subrange(k as int, all.len() as int),
                key@,
            ),
        decreases list@.len() - k,
    {
        let m = list[k];
        proof {
            let rest = all.subrange(k as int, all.len() as int);
            assert(rest[0] == all[k as int]);
            assert(all[k as int] == m@);
            assert(rest.drop_first() =~= all.subrange(k + 1, all.len() as int));
        }
        if span_is(bytes, m.key_start, m.key_end, key) {
            return Some(m);
        }
        k += 1;
    }
    None
}

/// The executable form of [`FrameSpans`]: each part as the positions of its
/// first byte and of the byte after its last.
#[derive(Clone, Copy, Debug)]
pub struct LineItems {
    pub cursor: (usize, usize),
    pub partition: (usize, usize),
    pub event_type: (usize, usize),
    pub events: Option<(usize, usize)>,
    pub info: Option<(usize, usize)>,
}

/// The span that a pair of positions stands for.
pub open spec fn span_of(p: (usize, usize)) -> Span {
    Span { start: p.0 as int, end: p.1 as int }
}

/// The span, if any, that an optional pair of positions stands for.
pub open spec fn opt_span_of(p: Option<(usize, usize)>) -> Option<Span> {
    match p {
        Some(q) => Some(span_of(q)),
        None => None,
    }
}

impl View for LineItems {
    type V = FrameSpans;

    open spec fn view(&self) -> FrameSpans {
        FrameSpans {
            cursor: span_of(self.cursor),
            partition: span_of(self.partition),
            event_type: span_of(self.event_type),
            events: opt_span_of(self.events),
            info: opt_span_of(self.info),
        }
    }
}

/// Whether a span lies within a line of `len` bytes.
pub open spec fn span_within(p: Span, len: int) -> bool {
    0 <= p.start <= p.end <= len
}

/// Whether all parts lie within a line of `len` bytes.
pub open spec fn frame_within(f: FrameSpans, len: int) -> bool {
    &&& span_within(f.cursor, len)
    &&& span_within(f.partition, len)
    &&& span_within(f.event_type, len)
    &&& f.events.is_some() ==> span_within(f.events.unwrap(), len)
    &&& f.info.is_some() ==> span_within(f.info.unwrap(), len)
}

fn cursor_key_bytes() -> (k: Vec<u8>)
    ensures
        k@ == cursor_key(),
{
    let k = vec![0x63u8, 0x75u8, 0x72u8, 0x73u8, 0x6fu8, 0x72u8];
    proof {
        assert(k@ =~= cursor_key());
    }
    k
}

fn partition_key_bytes() -> (k: Vec<u8>)
    ensures
        k@ == partition_key(),
{
    let k = vec![0x70u8, 0x61u8, 0x72u8, 0x74u8, 0x69u8, 0x74u8, 0x69u8, 0x6fu8, 0x6eu8];
    proof {
        assert(k@ =~= partition_key());
    }
    k
}

fn event_type_key_bytes() -> (k: Vec<u8>)
    ensures
        k@ == event_type_key(),
{
    let k = vec![0x65u8, 0x76u8, 0x65u8, 0x6eu8, 0x74u8, 0x5fu8, 0x74u8, 0x79u8, 0x70u8, 0x65u8];
    proof {
        assert(k@ =~= event_type_key());
    }
    k
}

fn events_key_bytes() -> (k: Vec<u8>)
    ensures
        k@ == events_key(),
{
    let k = vec![0x65u8, 0x76u8, 0x65u8, 0x6eu8, 0x74u8, 0x73u8];
    proof {
        assert(k@ =~= events_key());
    }
    k
}

fn info_key_bytes() -> (k: Vec<u8>)
    ensures
        k@ == info_key(),
{
    let k = vec![0x69u8, 0x6eu8, 0x66u8, 0x6fu8];
    proof {
        assert(k@ =~= info_key());
    }
    k
}

/// Looks for the first member named `key` and, if its value is a string,
/// gives the place of the string's contents.
pub fn find_string(bytes: &[u8], list: &Vec<Member>, key: &[u8]) -> (r: Option<(usize, usize)>)
    requires
        members_within(bytes@, spans(list@)),
    ensures
        opt_span_of(r) == spec_find_string(bytes@, spans(list@), key@),
        r.is_some() ==> span_within(span_of(r.unwrap()), bytes@.len() as int),
{
    match find(bytes, list, key) {
        Some(m) => {
            proof {
                lemma_find_is_member(bytes@, spans(list@), key@);
            }
            if bytes[m.value_start] == QUOTE {
                proof {
                    lemma_string_end_bounds(bytes@, m.value_start + 1);
                }
                Some((m.value_start + 1, m.value_end - 1))
            } else {
                None
            }
        },
        None => None,
    }
}

/// Looks for the first member named `key` and gives the place of its value.
pub fn find_value(bytes: &[u8], list: &Vec<Member>, key: &[u8]) -> (r: Option<(usize, usize)>)
    requires
        members_within(bytes@, spans(list@)),
    ensures
        opt_span_of(r) == spec_find_value(bytes@, spans(list@), key@),
        r.is_some() ==> r.unwrap().0 < r.unwrap().1 <= bytes@.len(),
{
    match find(bytes, list, key) {
        Some(m) => Some((m.value_start, m.value_end)),
        None => None,
    }
}

/// What [`spec_find`] finds is one of the members it was given.
pub proof fn lemma_find_is_member(s: Seq<u8>, members: Seq<MemberSpan>, key: Seq<u8>)
    requires
        spec_find(s, members, key).is_some(),
    ensures
        members.contains(spec_find(s, members, key).unwrap()),
        s.subrange(
            spec_find(s, members, key).unwrap().key.start,
            spec_find(s, members, key).unwrap().key.end,
        ) == key,
    decreases members.len(),
{
    if s.subrange(members[0].key.start, members[0].key.end) == key {
        assert(members[0] == spec_find(s, members, key).unwrap());
    } else {
        lemma_find_is_member(s, members.drop_first(), key);
        let found = spec_find(s, members, key).unwrap();
        let k = choose|k: int| 0 <= k < members.drop_first().len() && members.drop_first()[k] == found;
        assert(members[k + 1] == found);
    }
}

/// Finds the parts of a line, or says why it is no batch line.
pub fn parse_line(bytes: &[u8]) -> (r: Result<LineItems, ParseError>)
    ensures
        match r {
            Ok(items) => spec_frame(bytes@) == Ok::<FrameSpans, ParseError>(items@) && frame_within(
                items@,
                bytes@.len() as int,
            ),
            Err(e) => spec_frame(bytes@) == Err::<FrameSpans, ParseError>(e),
        },
{
    let start = skip_ws(bytes, 0);
    let (top, end) = match object(bytes, start) {
        Some(found) => found,
        None => {
            return Err(ParseError::NotAnObject);
        },
    };
    if skip_ws(bytes, end) != bytes.len() {
        return Err(ParseError::NotAnObject);
    }
    let cursor_key = cursor_key_bytes();
    let cursor = match find_value(bytes, &top, cursor_key.as_slice()) {
        Some(c) => c,
        None => {
            return Err(ParseError::NoCursor);
        },
    };
    let (inner, inner_end) = match object(bytes, cursor.0) {
        Some(found) => found,
        None => {
            return Err(ParseError::CursorNotAnObject);
        },
    };
    if inner_end != cursor.1 {
        return Err(ParseError::CursorNotAnObject);
    }
    let partition_key = partition_key_bytes();
    let partition = match find_string(bytes, &inner, partition_key.as_slice()) {
        Some(p) => p,
        None => {
            return Err(ParseError::NoPartition);
        },
    };
    let event_type_key = event_type_key_bytes();
    let event_type = match find_string(bytes, &inner, event_type_key.as_slice()) {
        Some(p) => p,
        None => {
            return Err(ParseError::NoEventType);
        },
    };
    let events_key = events_key_bytes();
    let events = find_value(bytes, &top, events_key.as_slice());
    match events {
        Some(e) => {
            if bytes[e.0] != OPEN_BRACKET {
                return Err(ParseError::EventsNotAnArray);
            }
        },
        None => {},
    }
    let info_key = info_key_bytes();
    let info = find_value(bytes, &top, info_key.as_slice());
    Ok(LineItems { cursor, partition, event_type, events, info })
}

/// Skipping whitespace never moves backwards nor past the end.
pub proof fn lemma_skip_ws_bounds(s: Seq<u8>, i: int)
    requires
        0 <= i <= s.len(),
    ensures
        i <= spec_skip_ws(s, i) <= s.len(),
    decreases s.len() - i,
{
    if i < s.len() && is_ws(s[i]) {
        lemma_skip_ws_bounds(s, i + 1);
    }
}

/// A nested value that ends, ends after where the scan began.
pub proof fn lemma_nested_end_bounds(s: Seq<u8>, i: int, depth: nat)
    requires
        spec_nested_end(s, i, depth).is_some(),
    ensures
        i < spec_nested_end(s, i, depth).unwrap() <= s.len(),
    decreases s.len() - i,
{
    if s[i] == QUOTE {
        let k = spec_string_end(s, i + 1).unwrap();
        lemma_nested_end_bounds(s, k, depth);
    } else if is_open(s[i]) {
        lemma_nested_end_bounds(s, i + 1, depth + 1);
    } else if is_close(s[i]) {
        if depth != 1 {
            lemma_nested_end_bounds(s, i + 1, (depth - 1) as nat);
        }
    } else {
        lemma_nested_end_bounds(s, i + 1, depth);
    }
}

/// A scalar ends at or after `i` and within the line.
pub proof fn lemma_scalar_end_bounds(s: Seq<u8>, i: int)
    requires
        0 <= i <= s.len(),
    ensures
        i <= spec_scalar_end(s, i) <= s.len(),
    decreases s.len() - i,
{
    if i < s.len() && !ends_scalar(s[i]) {
        lemma_scalar_end_bounds(s, i + 1);
    }
}

/// A value that ends, ends after where it began.
pub proof fn lemma_value_end_bounds(s: Seq<u8>, i: int)
    requires
        spec_value_end(s, i).is_some(),
    ensures
        i < spec_value_end(s, i).unwrap() <= s.len(),
{
    if s[i] == QUOTE {
        lemma_string_end_bounds(s, i + 1);
    } else if is_open(s[i]) {
        lemma_nested_end_bounds(s, i + 1, 1);
    } else {
        lemma_scalar_end_bounds(s, i + 1);
    }
}

/// Whether every member lies after `start` and before `end`.
pub open spec fn members_between(members: Seq<MemberSpan>, start: int, end: int) -> bool {
    forall|k: int|
        0 <= k < members.len() ==> start < (#[trigger] members[k]).key.start
            && members[k].value.end < end
}

/// The members that are read from `i` on lie within the line, each key
/// before its value, between `i` and the end of the object.
pub proof fn lemma_members_within(s: Seq<u8>, i: int)
    requires
        spec_members(s, i).is_some(),
    ensures
        i < spec_members(s, i).unwrap().1 <= s.len(),
        members_within(s, spec_members(s, i).unwrap().0),
        members_between(spec_members(s, i).unwrap().0, i, spec_members(s, i).unwrap().1),
    decreases s.len() - i,
{
    let key_end = spec_string_end(s, i + 1).unwrap();
    lemma_string_end_bounds(s, i + 1);
    lemma_skip_ws_bounds(s, key_end);
    let colon = spec_skip_ws(s, key_end);
    lemma_skip_ws_bounds(s, colon + 1);
    let value_start = spec_skip_ws(s, colon + 1);
    let value_end = spec_value_end(s, value_start).unwrap();
    lemma_value_end_bounds(s, value_start);
    lemma_skip_ws_bounds(s, value_end);
    let next = spec_skip_ws(s, value_end);
    let member = MemberSpan {
        key: Span { start: i + 1, end: key_end - 1 },
        value: Span { start: value_start, end: value_end },
    };
    let (list, end) = spec_members(s, i).unwrap();
    if s[next] == CLOSE_BRACE {
        assert(list =~= seq![member]);
    } else {
        lemma_skip_ws_bounds(s, next + 1);
        let after = spec_skip_ws(s, next + 1);
        lemma_members_within(s, after);
        let (rest, rest_end) = spec_members(s, after).unwrap();
        assert(list =~= seq![member] + rest);
        assert forall|k: int| 0 <= k < list.len() implies {
            let m = #[trigger] list[k];
            &&& 0 <= m.key.start <= m.key.end < m.value.start < m.value.end <= s.len()
            &&& spec_value_end(s, m.value.start) == Some(m.value.end)
            &&& i < m.key.start
            &&& m.value.end < end
        } by {
            if k > 0 {
                assert(list[k] == rest[k - 1]);
            }
        }
    }
}

/// The members of an object lie within the line, each key before its
/// value, between the braces of the object.
pub proof fn lemma_object_within(s: Seq<u8>, i: int)
    requires
        spec_object(s, i).is_some(),
    ensures
        i < spec_object(s, i).unwrap().1 <= s.len(),
        members_within(s, spec_object(s, i).unwrap().0),
        members_between(spec_object(s, i).unwrap().0, i, spec_object(s, i).unwrap().1),
{
    lemma_skip_ws_bounds(s, i + 1);
    let first = spec_skip_ws(s, i + 1);
    if 0 <= first < s.len() && s[first] == CLOSE_BRACE {
    } else {
        lemma_members_within(s, first);
    }
}

/// A string value that is found lies inside the quotes of a member.
pub proof fn lemma_find_string_within(s: Seq<u8>, members: Seq<MemberSpan>, key: Seq<u8>)
    requires
        members_within(s, members),
        spec_find_string(s, members, key).is_some(),
    ensures
        ({
            let m = spec_find(s, members, key).unwrap();
            let p = spec_find_string(s, members, key).unwrap();
            &&& members.contains(m)
            &&& m.value.start < p.start <= p.end < m.value.end
        }),
{
    lemma_find_is_member(s, members, key);
    let m = spec_find(s, members, key).unwrap();
    lemma_string_end_bounds(s, m.value.start + 1);
}

/// The parts of a batch line lie within the line, the partition and the
/// event type inside the cursor, and the events are an array.
pub proof fn lemma_parts_lie_within(s: Seq<u8>)
    requires
        spec_frame(s).is_ok(),
    ensures
        frame_within(spec_frame(s).unwrap(), s.len() as int),
        ({
            let f = spec_frame(s).unwrap();
            &&& f.cursor.start < f.partition.start <= f.partition.end < f.cursor.end
            &&& f.cursor.start < f.event_type.start <= f.event_type.end < f.cursor.end
            &&& s[f.cursor.start] == OPEN_BRACE
            &&& f.events.is_some() ==> s[f.events.unwrap().start] == OPEN_BRACKET
        }),
{
    lemma_skip_ws_bounds(s, 0);
    let start = spec_skip_ws(s, 0);
    lemma_object_within(s, start);
    let (top, end) = spec_object(s, start).unwrap();
    lemma_find_is_member(s, top, cursor_key());
    let c = spec_find(s, top, cursor_key()).unwrap();
    let cursor = c.value;
    lemma_object_within(s, cursor.start);
    let (inner, inner_end) = spec_object(s, cursor.start).unwrap();
    lemma_find_string_within(s, inner, partition_key());
    lemma_find_string_within(s, inner, event_type_key());
    let f = spec_frame(s).unwrap();
    if f.events.is_some() {
        lemma_find_is_member(s, top, events_key());
    }
    if f.info.is_some() {
        lemma_find_is_member(s, top, info_key());
    }
}

} // verus!
