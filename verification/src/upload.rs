//! What arrives with an upload request.
//!
//! A request carries fields: the details of the album, image files, and a
//! list of images to delete. This module holds the rules by which fields are
//! told apart, a file is collected from the pieces in which it arrives, and
//! the list of ids is read.

use vstd::prelude::*;
use vstd::string::StringExecFns;
use crate::text::{all_digits, chars_of, digits_value, is_digit, last_piece_start, lemma_digits_value_grows};

verus! {

/// Whether `c` is white space.
pub open spec fn is_space(c: char) -> bool {
    let n = c as u32;
    (9 <= n && n <= 13) || n == 0x20 || n == 0x85 || n == 0xa0 || n == 0x1680 || (0x2000 <= n && n
        <= 0x200a) || n == 0x2028 || n == 0x2029 || n == 0x202f || n == 0x205f || n == 0x3000
}

/// The number of white-space characters at the start of `s`.
pub open spec fn leading_spaces(s: Seq<char>) -> int
    decreases s.len(),
{
    if s.len() > 0 && is_space(s[0]) {
        1 + leading_spaces(s.drop_first())
    } else {
        0
    }
}

/// The length of `s` without the white space at its end.
pub open spec fn content_end(s: Seq<char>) -> int
    decreases s.len(),
{
    if s.len() > 0 && is_space(s.last()) {
        content_end(s.drop_last())
    } else {
        s.len() as int
    }
}

/// `s` without the white space at its start and at its end.
pub open spec fn trimmed(s: Seq<char>) -> Seq<char> {
    let body = s.take(content_end(s));
    body.skip(leading_spaces(body))
}

/// The number that `s` writes: an optional `+` or `-`, then one or more
/// decimal digits and nothing else. `None` where `s` is not of that form or
/// the number does not fit.
pub open spec fn parse_i64(s: Seq<char>) -> Option<i64> {
    let signed = s.len() > 0 && (s[0] == '-' || s[0] == '+');
    let digits = if signed {
        s.skip(1)
    } else {
        s
    };
    let value = if s.len() > 0 && s[0] == '-' {
        -digits_value(digits)
    } else {
        digits_value(digits)
    };
    if digits.len() == 0 || !all_digits(digits) || value < i64::MIN || value > i64::MAX {
        None
    } else {
        Some(value as i64)
    }
}

/// The ids that a list names. The list is cut at its commas; of each piece
/// the white space around it is dropped; a piece that then writes a number
/// gives an id, any other piece is passed over.
pub open spec fn listed_ids(text: Seq<char>) -> Seq<i64>
    decreases text.len(),
{
    let start = last_piece_start(text, ',');
    let piece = text.subrange(start, text.len() as int);
    let before = if 0 < start <= text.len() {
        listed_ids(text.take(start - 1))
    } else {
        Seq::empty()
    };
    match parse_i64(trimmed(piece)) {
        Some(id) => before.push(id),
        None => before,
    }
}

/// Whether `c` is white space.
fn space(c: char) -> (b: bool)
    ensures
        b == is_space(c),
{
    let n: u32 = c as u32;
    (9 <= n && n <= 13) || n == 0x20 || n == 0x85 || n == 0xa0 || n == 0x1680 || (0x2000 <= n && n
        <= 0x200a) || n == 0x2028 || n == 0x2029 || n == 0x202f || n == 0x205f || n == 0x3000
}

/// Finds `v[from..to]` without the white space around it: returns
/// `(start, end)` such that it is `v[start..end]`.
fn trim_range(v: &Vec<char>, from: usize, to: usize) -> (r: (usize, usize))
    requires
        from <= to <= v.len(),
    ensures
        from <= r.0 <= r.1 <= to,
        v@.subrange(r.0 as int, r.1 as int) == trimmed(v@.subrange(from as int, to as int)),
{
    let ghost s = v@.subrange(from as int, to as int);
    let mut end: usize = to;
    assert(s.take(end - from) == s);
    while end > from && space(v[end - 1])
        invariant
            from <= end <= to <= v.len(),
            s == v@.subrange(from as int, to as int),
            content_end(s) == content_end(s.take(end - from)),
        decreases end,
    {
        assert(s.take(end - from).drop_last() == s.take(end - from - 1));
        end -= 1;
    }
    let ghost body = s.take(end - from);
    assert(body == s.take(content_end(s)));
    let mut start: usize = from;
    assert(body.skip(0) == body);
    while start < end && space(v[start])
        invariant
            from <= start <= end <= to <= v.len(),
            body == v@.subrange(from as int, end as int),
            leading_spaces(body) == (start - from) + leading_spaces(body.skip(start - from)),
        decreases end - start,
    {
        assert(body.skip(start - from).drop_first() == body.skip(start - from + 1));
        start += 1;
    }
    assert(body.skip(start - from) == v@.subrange(start as int, end as int));
    (start, end)
}

/// Reads the number that `v[from..to]` writes.
#[verifier::loop_isolation(false)]
fn parse_range(v: &Vec<char>, from: usize, to: usize) -> (id: Option<i64>)
    requires
        from <= to <= v.len(),
    ensures
        id == parse_i64(v@.subrange(from as int, to as int)),
{
    let ghost s = v@.subrange(from as int, to as int);
    if from == to {
        return None;
    }
    let negative = v[from] == '-';
    let signed = negative || v[from] == '+';
    let first: usize = if signed {
        from + 1
    } else {
        from
    };
    let ghost digits = v@.subrange(first as int, to as int);
    proof {
        assert(s[0] == v@[from as int]);
        if signed {
            assert(s.skip(1) == digits);
        } else {
            assert(s == digits);
        }
    }
    if first == to {
        return None;
    }
    let mut value: i128 = 0;
    let mut i: usize = first;
    assert(digits.take(0) == Seq::<char>::empty());
    while i < to
        invariant
            first <= i <= to <= v.len(),
            digits == v@.subrange(first as int, to as int),
            forall|k: int| 0 <= k < i - first ==> is_digit(#[trigger] digits[k]),
            value == digits_value(digits.take(i - first)),
            0 <= value <= 0x8000_0000_0000_0000,
        decreases to - i,
    {
        let n: u32 = v[i] as u32;
        if n < 48 || n > 57 {
            assert(!is_digit(digits[i - first]));
            return None;
        }
        proof {
            assert(digits.take(i - first + 1).drop_last() == digits.take(i - first));
            assert(digits.take(i - first + 1).last() == digits[i - first]);
        }
        let next: i128 = value * 10 + (n - 48) as i128;
        if next > 0x8000_0000_0000_0000 {
            let ghost seen = i - first + 1;
            let mut j: usize = i + 1;
            while j < to
                invariant
                    i < j <= to <= v.len(),
                    first <= i,
                    digits == v@.subrange(first as int, to as int),
                    forall|k: int| 0 <= k < j - first ==> is_digit(#[trigger] digits[k]),
                decreases to - j,
            {
                let m: u32 = v[j] as u32;
                if m < 48 || m > 57 {
                    assert(!is_digit(digits[j - first]));
                    return None;
                }
                j += 1;
            }
            proof {
                lemma_digits_value_grows(digits, seen);
            }
            return None;
        }
        value = next;
        i += 1;
    }
    assert(digits.take(i - first) == digits);
    if negative {
        Some((-value) as i64)
    } else if value > 0x7fff_ffff_ffff_ffff {
        None
    } else {
        Some(value as i64)
    }
}

/// Reads a list of ids: numbers with commas between them. White space
/// around a number does not count, and a piece that is not a number is
/// passed over.
pub fn parse_id_list(text: &str) -> (ids: Vec<i64>)
    ensures
        ids@ == listed_ids(text@),
{
    let v = chars_of(text);
    let mut ids: Vec<i64> = Vec::new();
    let mut start: usize = 0;
    loop
        invariant_except_break
            start > 0 ==> v@[start - 1] == ',',
            ids@ == if start > 0 {
                listed_ids(v@.take(start - 1))
            } else {
                Seq::<i64>::empty()
            },
        invariant
            start <= v.len(),
            v@ == text@,
        ensures
            ids@ == listed_ids(v@),
        decreases v.len() - start,
    {
        let mut end: usize = start;
        while end < v.len() && v[end] != ','
            invariant
                start <= end <= v.len(),
                forall|k: int| start <= k < end ==> v@[k] != ',',
            decreases v.len() - end,
        {
            end += 1;
        }
        let ghost whole = v@.take(end as int);
        proof {
            lemma_piece_start_at(whole, start as int);
            assert(whole.subrange(start as int, whole.len() as int) == v@.subrange(
                start as int,
                end as int,
            ));
            if start > 0 {
                assert(whole.take(start - 1) == v@.take(start - 1));
            }
        }
        let (from, to) = trim_range(&v, start, end);
        match parse_range(&v, from, to) {
            Some(id) => {
                ids.push(id);
            },
            None => {},
        }
        assert(ids@ == listed_ids(whole));
        if end == v.len() {
            assert(whole == v@);
            break;
        }
        start = end + 1;
    }
    ids
}

/// Where a `sep` stands just before `start`, or `start` is 0, and none
/// follows, the last piece starts at `start`.
pub proof fn lemma_piece_start_at(s: Seq<char>, start: int)
    requires
        0 <= start <= s.len(),
        start > 0 ==> s[start - 1] == ',',
        forall|k: int| start <= k < s.len() ==> s[k] != ',',
    ensures
        last_piece_start(s, ',') == start,
    decreases s.len(),
{
    if s.len() > start {
        lemma_piece_start_at(s.drop_last(), start);
    }
}

/// What a field of a request holds.
#[derive(Clone, Copy, Debug, PartialEq, Eq, Structural)]
pub enum FieldKind {
    /// The details of the album.
    Album,
    /// An image file.
    Image,
    /// The list of images to delete.
    Deleted,
    /// Nothing that is looked at.
    Other,
}

/// The kind of the field called `name`, where the album's details are sent
/// as `album_field`, images as `image_field`, and the list of images to
/// delete as `deleted_field` if the request may carry one. Where names
/// coincide the earlier of the three wins.
pub open spec fn field_kind(
    name: Seq<char>,
    album_field: Seq<char>,
    image_field: Seq<char>,
    deleted_field: Option<Seq<char>>,
) -> FieldKind {
    if name == album_field {
        FieldKind::Album
    } else if name == image_field {
        FieldKind::Image
    } else if deleted_field == Some(name) {
        FieldKind::Deleted
    } else {
        FieldKind::Other
    }
}

/// Whether two texts are the same.
fn same_text(a: &str, b: &str) -> (same: bool)
    ensures
        same == (a@ == b@),
{
    let x = String::from_str(a);
    let y = String::from_str(b);
    x == y
}

/// Tells what the field called `name` holds.
pub fn classify_field(
    name: &str,
    album_field: &str,
    image_field: &str,
    deleted_field: Option<&str>,
) -> (kind: FieldKind)
    ensures
        kind == field_kind(
            name@,
            album_field@,
            image_field@,
            match deleted_field {
                Some(d) => Some(d@),
                None => None,
            },
        ),
{
    if same_text(name, album_field) {
        FieldKind::Album
    } else if same_text(name, image_field) {
        FieldKind::Image
    } else {
        match deleted_field {
            Some(d) => if same_text(name, d) {
                FieldKind::Deleted
            } else {
                FieldKind::Other
            },
            None => FieldKind::Other,
        }
    }
}

/// The name that an uploaded file goes by: the one it was sent with, or
/// `unknown.jpg` where it was sent without.
pub fn upload_name(file_name: Option<String>) -> (name: String)
    ensures
        name@ == match file_name {
            Some(n) => n@,
            None => "unknown.jpg"@,
        },
{
    match file_name {
        Some(n) => n,
        None => String::from_str("unknown.jpg"),
    }
}

/// An uploaded file: the name it goes by and its bytes.
pub struct Upload {
    pub filename: String,
    pub data: Vec<u8>,
}

/// Adds a file to the images of a request. A file without bytes is dropped.
pub fn collect_upload(images: &mut Vec<Upload>, file_name: Option<String>, data: Vec<u8>)
    ensures
        data@.len() == 0 ==> final(images)@ == old(images)@,
        data@.len() > 0 ==> {
            &&& final(images)@.len() == old(images)@.len() + 1
            &&& final(images)@.drop_last() == old(images)@
            &&& final(images)@.last().data == data
            &&& final(images)@.last().filename@ == match file_name {
                Some(n) => n@,
                None => "unknown.jpg"@,
            }
        },
{
    if data.len() > 0 {
        let filename = upload_name(file_name);
        images.push(Upload { filename, data });
        assert(images@.drop_last() == old(images)@);
    }
}

/// The most bytes that one uploaded file may have: 100 MiB.
pub const MAX_FILE_SIZE: usize = 104857600;

/// Why the bytes of a file stopped coming.
#[derive(Clone, Copy, Debug, PartialEq, Eq, Structural)]
pub enum StreamEnd {
    /// The file is complete.
    Complete,
    /// Reading failed.
    ReadError,
    /// No bytes came in time.
    Timeout,
}

/// Why a file could not be collected.
#[derive(Clone, Copy, Debug, PartialEq, Eq, Structural)]
pub enum StreamError {
    /// The file has more than `MAX_FILE_SIZE` bytes.
    TooLarge,
    /// Reading failed before any byte came.
    ReadError,
    /// No byte came in time.
    Timeout,
}

/// The bytes of one file, as far as they have come.
pub struct FieldStream {
    buffer: Vec<u8>,
}

impl View for FieldStream {
    type V = Seq<u8>;

    closed spec fn view(&self) -> Seq<u8> {
        self.buffer@
    }
}

/// What becomes of the bytes collected so far when no more come. A file that
/// is cut short by a failure is kept as far as it came; only a failure before
/// the first byte is an error.
pub open spec fn stream_result(collected: Seq<u8>, end: StreamEnd) -> Result<Seq<u8>, StreamError> {
    match end {
        StreamEnd::Complete => Ok(collected),
        StreamEnd::ReadError => if collected.len() > 0 {
            Ok(collected)
        } else {
            Err(StreamError::ReadError)
        },
        StreamEnd::Timeout => if collected.len() > 0 {
            Ok(collected)
        } else {
            Err(StreamError::Timeout)
        },
    }
}

impl FieldStream {
    /// A file of which no byte has come yet.
    pub fn new() -> (stream: FieldStream)
        ensures
            stream@.len() == 0,
    {
        FieldStream { buffer: Vec::new() }
    }

    /// How many bytes have come.
    pub fn total_bytes(&self) -> (n: usize)
        ensures
            n == self@.len(),
    {
        self.buffer.len()
    }

    /// Takes the next piece of the file. Fails, and keeps what it had, where
    /// the file would grow beyond `MAX_FILE_SIZE` bytes.
    pub fn accept(&mut self, chunk: &[u8]) -> (accepted: Result<(), StreamError>)
        ensures
            match accepted {
                Ok(_) => old(self)@.len() + chunk@.len() <= MAX_FILE_SIZE && final(self)@ == old(
                    self,
                )@ + chunk@,
                Err(e) => e == StreamError::TooLarge && old(self)@.len() + chunk@.len()
                    > MAX_FILE_SIZE && final(self)@ == old(self)@,
            },
    {
        if chunk.len() > MAX_FILE_SIZE || self.buffer.len() > MAX_FILE_SIZE - chunk.len() {
            return Err(StreamError::TooLarge);
        }
        let mut i: usize = 0;
        while i < chunk.len()
            invariant
                i <= chunk.len(),
                self.buffer@ == old(self).buffer@ + chunk@.take(i as int),
            decreases chunk.len() - i,
        {
            self.buffer.push(chunk[i]);
            i += 1;
            assert(chunk@.take(i as int) == chunk@.take(i - 1).push(chunk@[i - 1]));
        }
        assert(chunk@.take(i as int) == chunk@);
        Ok(())
    }

    /// Ends the file: hands out its bytes, or says why there are none.
    pub fn finish(self, end: StreamEnd) -> (bytes: Result<Vec<u8>, StreamError>)
        ensures
            match bytes {
                Ok(b) => stream_result(self@, end) == Ok::<Seq<u8>, StreamError>(b@),
                Err(e) => stream_result(self@, end) == Err::<Seq<u8>, StreamError>(e),
            },
    {
        match end {
            StreamEnd::Complete => Ok(self.buffer),
            StreamEnd::ReadError => if self.buffer.len() > 0 {
                Ok(self.buffer)
            } else {
                Err(StreamError::ReadError)
            },
            StreamEnd::Timeout => if self.buffer.len() > 0 {
                Ok(self.buffer)
            } else {
                Err(StreamError::Timeout)
            },
        }
    }
}

} // verus!
