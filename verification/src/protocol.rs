//! The header section of the LSP base protocol.
use crate::peekable_chars_with_position::{
    char_at, cursor_ok, lemma_ascii_width, lemma_step, step,
};
use crate::text::{same_text, substring, text_of};
use vstd::prelude::*;
use vstd::string::*;
use vstd::utf8::*;

verus! {

/// Why a message could not be read.
#[derive(PartialEq, Eq, Debug, Clone)]
pub enum ProtocolError {
    /// The input ended within the header section.
    UnexpectedEof,
    /// A header line does not hold exactly one space.
    Malformed(String),
    /// The content length is no number.
    BadSize,
    /// The content type is not UTF-8.
    BadContentType(String),
    /// The header section names no content length.
    MissingLength,
    /// The content is not as long as the header section says, or is not
    /// well-formed UTF-8.
    BadContent,
}

/// A line of the header section.
#[derive(PartialEq, Eq, Debug, Clone, Copy, Structural)]
pub enum Header {
    /// The empty line that ends the section.
    End,
    ContentLength(usize),
    ContentType,
    /// A header that is not known and is passed over.
    Other,
}

pub enum ProtocolErrorModel {
    UnexpectedEof,
    Malformed(Seq<char>),
    BadSize,
    BadContentType(Seq<char>),
    MissingLength,
    BadContent,
}

impl ProtocolError {
    pub open spec fn model(&self) -> ProtocolErrorModel {
        match self {
            ProtocolError::UnexpectedEof => ProtocolErrorModel::UnexpectedEof,
            ProtocolError::Malformed(s) => ProtocolErrorModel::Malformed(s@),
            ProtocolError::BadSize => ProtocolErrorModel::BadSize,
            ProtocolError::BadContentType(s) => ProtocolErrorModel::BadContentType(s@),
            ProtocolError::MissingLength => ProtocolErrorModel::MissingLength,
            ProtocolError::BadContent => ProtocolErrorModel::BadContent,
        }
    }

    /// What the error says.
    pub open spec fn message_text(&self) -> Seq<char> {
        match self {
            ProtocolError::UnexpectedEof => "EOF encountered in the middle of reading LSP headers"@,
            ProtocolError::Malformed(s) => "Header '"@ + s@ + "' is malformed"@,
            ProtocolError::BadSize => "Couldn't read size"@,
            ProtocolError::BadContentType(s) => "Content type '"@ + s@ + "' is invalid"@,
            ProtocolError::MissingLength => "Message is missing 'content-length' header"@,
            ProtocolError::BadContent => "Message content is invalid"@,
        }
    }

    pub fn message(&self) -> (r: String)
        ensures
            r@ == self.message_text(),
    {
        match self {
            ProtocolError::UnexpectedEof => String::from_str(
                "EOF encountered in the middle of reading LSP headers",
            ),
            ProtocolError::Malformed(s) => String::from_str("Header '").concat(s.as_str()).concat(
                "' is malformed",
            ),
            ProtocolError::BadSize => String::from_str("Couldn't read size"),
            ProtocolError::BadContentType(s) => String::from_str("Content type '").concat(
                s.as_str(),
            ).concat("' is invalid"),
            ProtocolError::MissingLength => String::from_str(
                "Message is missing 'content-length' header",
            ),
            ProtocolError::BadContent => String::from_str("Message content is invalid"),
        }
    }
}

/// What `str::to_lowercase` makes of a text.
pub uninterp spec fn lowercase(text: Seq<char>) -> Seq<char>;

/// What `str::trim` leaves of a text.
pub uninterp spec fn trimmed(text: Seq<char>) -> Seq<char>;

/// The value of a digit in the base `radix`: `0` to `9` count 0 to 9, the
/// letters, small or capital, 10 to 35; a digit is one whose value is
/// below the base.
pub open spec fn digit_of(c: char, radix: u32) -> Option<nat> {
    let value: int = if '0' <= c && c <= '9' {
        c as int - '0' as int
    } else if 'a' <= c && c <= 'z' {
        c as int - 'a' as int + 10
    } else if 'A' <= c && c <= 'Z' {
        c as int - 'A' as int + 10
    } else {
        radix as int
    };
    if value < radix {
        Some(value as nat)
    } else {
        None
    }
}

/// The number that the digits denote in the base `radix`, if all of them
/// are digits of that base.
pub open spec fn number_of(digits: Seq<char>, radix: u32) -> Option<nat>
    decreases digits.len(),
{
    if digits.len() == 0 {
        Some(0)
    } else {
        match (number_of(digits.drop_last(), radix), digit_of(digits.last(), radix)) {
            (Some(n), Some(d)) => Some(n * (radix as nat) + d),
            _ => None,
        }
    }
}

/// The number that a text denotes in the base `radix`: the text is a `+`
/// or none and at least one digit, nothing else, and the number fits.
pub open spec fn size_of(text: Seq<char>, radix: u32) -> Option<usize> {
    let digits = if text.len() > 0 && text[0] == '+' {
        text.subrange(1, text.len() as int)
    } else {
        text
    };
    match number_of(digits, radix) {
        Some(n) => if digits.len() > 0 && n <= usize::MAX {
            Some(n as usize)
        } else {
            None
        },
        None => None,
    }
}

/// `str::to_lowercase`: the text with every character in lower case.
#[verifier::external_body]
fn to_lowercase(s: &str) -> (r: String)
    ensures
        r@ == lowercase(s@),
{
    s.to_lowercase()
}

/// `str::trim`: the text without the white space at its start and end.
#[verifier::external_body]
fn trim(s: &str) -> (r: String)
    ensures
        r@ == trimmed(s@),
{
    s.trim().to_string()
}

/// `usize::from_str_radix`: the number that the text denotes in the base
/// `radix`, where the text is an optional `+` and digits of that base, at
/// least one, and the number fits; nothing otherwise. The base is one
/// that the function takes.
#[verifier::external_body]
fn read_size(s: &str, radix: u32) -> (r: Option<usize>)
    requires
        2 <= radix <= 36,
    ensures
        r == size_of(s@, radix),
{
    usize::from_str_radix(s, radix).ok()
}

/// `String::from_utf8`: the text that the bytes encode, if they are
/// well-formed UTF-8.
#[verifier::external_body]
fn from_utf8(bytes: Vec<u8>) -> (r: Option<String>)
    ensures
        r is Some <==> valid_utf8(bytes@),
        r matches Some(s) ==> s@ == decode_utf8(bytes@),
{
    String::from_utf8(bytes).ok()
}

/// The number of spaces among the first `n` bytes.
pub open spec fn spaces(line: Seq<u8>, n: int) -> nat
    decreases n,
{
    if n <= 0 {
        0
    } else if line[n - 1] == 0x20 {
        spaces(line, n - 1) + 1
    } else {
        spaces(line, n - 1)
    }
}

/// The index of the first space among the first `n` bytes, or `n`.
pub open spec fn first_space(line: Seq<u8>, n: int) -> int
    decreases n,
{
    if n <= 0 {
        0
    } else if first_space(line, n - 1) < n - 1 {
        first_space(line, n - 1)
    } else if line[n - 1] == 0x20 {
        n - 1
    } else {
        n
    }
}

/// What a line of the header section is. A line holds a name and a value
/// with one space between them; the name counts without regard to case,
/// the value without the white space around it.
pub open spec fn header_of(line: Seq<u8>) -> Result<Header, ProtocolErrorModel> {
    let text = decode_utf8(line);
    let n = line.len() as int;
    let at = first_space(line, n);
    let name = lowercase(text_of(line, 0, at));
    let value = trimmed(text_of(line, at + 1, n));
    if line.len() == 0 {
        Err(ProtocolErrorModel::UnexpectedEof)
    } else if text == "\r\n"@ {
        Ok(Header::End)
    } else if spaces(line, n) != 1 {
        Err(ProtocolErrorModel::Malformed(text))
    } else {
        header_from(name, value, size_of(value, 10))
    }
}

/// What a header is whose name in lower case is `name` and whose value,
/// the white space around it left out, is `value` and denotes the number
/// `size`, if it denotes one: the content length has to be a number, the
/// content type has to be UTF-8, and any other header is passed over.
pub open spec fn header_from(name: Seq<char>, value: Seq<char>, size: Option<usize>) -> Result<
    Header,
    ProtocolErrorModel,
> {
    if name == "content-length:"@ {
        match size {
            Some(size) => Ok(Header::ContentLength(size)),
            None => Err(ProtocolErrorModel::BadSize),
        }
    } else if name == "content-type:"@ {
        if value == "utf8"@ || value == "utf-8"@ {
            Ok(Header::ContentType)
        } else {
            Err(ProtocolErrorModel::BadContentType(value))
        }
    } else {
        Ok(Header::Other)
    }
}

pub open spec fn header_model(r: Result<Header, ProtocolError>) -> Result<
    Header,
    ProtocolErrorModel,
> {
    match r {
        Ok(h) => Ok(h),
        Err(e) => Err(e.model()),
    }
}

proof fn lemma_first_space(line: Seq<u8>, n: int)
    requires
        0 <= n <= line.len(),
    ensures
        0 <= first_space(line, n) <= n,
        first_space(line, n) < n ==> line[first_space(line, n)] == 0x20,
    decreases n,
{
    if n > 0 {
        lemma_first_space(line, n - 1);
    }
}

/// Reads one line of the header section, with its line break. An empty
/// line stands for the end of the input.
pub fn parse_header(line: &str) -> (r: Result<Header, ProtocolError>)
    ensures
        header_model(r) == header_of(line.spec_bytes()),
{
    let bytes = line.as_bytes();
    let n = bytes.len();
    proof {
        encode_utf8_valid_utf8(line@);
        encode_utf8_decode_utf8(line@);
        is_char_boundary_start_end_of_seq(bytes@);
    }
    // End of input.
    if n == 0 {
        return Err(ProtocolError::UnexpectedEof);
    }
    // Header section is finished.
    if same_text(line, "\r\n") {
        return Ok(Header::End);
    }
    let mut count: usize = 0;
    let mut at: usize = n;
    let mut i: usize = 0;
    while i < n
        invariant
            i <= n,
            n == bytes@.len(),
            count == spaces(bytes@, i as int),
            count <= i,
            at == if first_space(bytes@, i as int) < i {
                first_space(bytes@, i as int)
            } else {
                n as int
            },
        decreases n - i,
    {
        if bytes[i] == 0x20 {
            count = count + 1;
            if at == n {
                at = i;
            }
        }
        i = i + 1;
    }
    // Make sure header is valid.
    if count != 1 {
        return Err(ProtocolError::Malformed(String::from_str(line)));
    }
    proof {
        lemma_first_space(bytes@, n as int);
        assert(first_space(bytes@, n as int) < n) by {
            lemma_spaces_found(bytes@, n as int);
        }
        assert(bytes@[at as int] == 0x20);
        is_char_boundary_iff_not_is_continuation_byte(bytes@, at as int);
        assert(cursor_ok(bytes@, at as int));
        lemma_step(bytes@, at as int);
        lemma_space_is_ascii(bytes@, at as int);
        lemma_ascii_width(bytes@, at as int);
    }
    let header_name = to_lowercase(substring(line, 0, at));
    let header_value = trim(substring(line, at + 1, n));
    let size = read_size(header_value.as_str(), 10);
    header(header_name.as_str(), header_value, size)
}

/// Tells what a header is from its name in lower case, its value without
/// the white space around it, and the number that the value denotes, if
/// it denotes one.
pub fn header(name: &str, value: String, size: Option<usize>) -> (r: Result<Header, ProtocolError>)
    ensures
        header_model(r) == header_from(name@, value@, size),
{
    if same_text(name, "content-length:") {
        match size {
            Some(size) => Ok(Header::ContentLength(size)),
            None => Err(ProtocolError::BadSize),
        }
    } else if same_text(name, "content-type:") {
        if !same_text(value.as_str(), "utf8") && !same_text(value.as_str(), "utf-8") {
            return Err(ProtocolError::BadContentType(value));
        }
        Ok(Header::ContentType)
    } else {
        // Ignore unknown headers (the protocol doesn't say what to do in this case).
        Ok(Header::Other)
    }
}

/// Where there is a space among the first `n` bytes, the first one is found.
proof fn lemma_spaces_found(line: Seq<u8>, n: int)
    requires
        0 <= n <= line.len(),
    ensures
        spaces(line, n) > 0 ==> first_space(line, n) < n,
    decreases n,
{
    if n > 0 {
        lemma_spaces_found(line, n - 1);
        lemma_first_space(line, n - 1);
    }
}

/// The character that starts with the byte of a space is a space.
proof fn lemma_space_is_ascii(src: Seq<u8>, pos: int)
    requires
        cursor_ok(src, pos),
        pos < src.len(),
        src[pos] == 0x20,
    ensures
        char_at(src, pos) as u32 <= 0x7f,
{
    let rest = src.subrange(pos, src.len() as int);
    valid_utf8_split(src, pos);
    assert(rest[0] == src[pos]);
    assert(valid_first_scalar(rest));
    let b0 = rest[0];
    assert(b0 & 0x7f <= 0x7f) by (bit_vector);
    let v = decode_first_scalar(rest);
    assert(v <= 0x7f);
    assert((v as char) as u32 == v);
}

/// The state of reading a header section: the content length that was
/// named last, if one was.
pub struct HeaderReader {
    pub size: Option<usize>,
}

/// What follows a line of the header section.
#[derive(PartialEq, Eq, Debug, Clone, Copy, Structural)]
pub enum Step {
    /// Another line of the section.
    Line,
    /// The content, which is as many bytes long.
    Content(usize),
}

/// What follows the line `header` where the content length named so far is `size`.
pub open spec fn step_of(size: Option<usize>, header: Result<Header, ProtocolErrorModel>) -> Result<
    (Option<usize>, Step),
    ProtocolErrorModel,
> {
    match header {
        Err(e) => Err(e),
        Ok(Header::End) => match size {
            Some(n) => Ok((size, Step::Content(n))),
            None => Err(ProtocolErrorModel::MissingLength),
        },
        Ok(Header::ContentLength(n)) => Ok((Some(n), Step::Line)),
        Ok(_) => Ok((size, Step::Line)),
    }
}

impl HeaderReader {
    pub fn new() -> (r: HeaderReader)
        ensures
            r.size is None,
    {
        HeaderReader { size: None }
    }

    /// Takes the next line of the header section, with its line break; an
    /// empty line stands for the end of the input. Says what is to be read
    /// next, or why the message cannot be read.
    pub fn line(&mut self, line: &str) -> (r: Result<Step, ProtocolError>)
        ensures
            match r {
                Ok(step) => step_of(old(self).size, header_of(line.spec_bytes())) == Ok::<
                    (Option<usize>, Step),
                    ProtocolErrorModel,
                >((final(self).size, step)),
                Err(e) => step_of(old(self).size, header_of(line.spec_bytes())) == Err::<
                    (Option<usize>, Step),
                    ProtocolErrorModel,
                >(e.model()) && final(self).size == old(self).size,
            },
    {
        match parse_header(line) {
            Err(e) => Err(e),
            Ok(Header::End) => match self.size {
                Some(n) => Ok(Step::Content(n)),
                None => Err(ProtocolError::MissingLength),
            },
            Ok(Header::ContentLength(n)) => {
                self.size = Some(n);
                Ok(Step::Line)
            },
            Ok(_) => Ok(Step::Line),
        }
    }
}

/// The text of a message whose header section announced `size` bytes of
/// content, of which `content` was read.
pub fn read_content(size: usize, content: Vec<u8>) -> (r: Result<String, ProtocolError>)
    ensures
        match r {
            Ok(s) => content@.len() == size && valid_utf8(content@) && s@ == decode_utf8(content@),
            Err(e) => e == ProtocolError::BadContent && !(content@.len() == size && valid_utf8(
                content@,
            )),
        },
{
    if content.len() != size {
        return Err(ProtocolError::BadContent);
    }
    match from_utf8(content) {
        Some(s) => Ok(s),
        None => Err(ProtocolError::BadContent),
    }
}

/// The content length that the header section `lines[from..]` announces,
/// where `size` was named before. A section that its lines do not end is
/// cut short by the end of the input.
pub open spec fn content_length(lines: Seq<String>, from: int, size: Option<usize>) -> Result<
    usize,
    ProtocolErrorModel,
>
    decreases lines.len() - from,
{
    if from < 0 || from >= lines.len() {
        Err(ProtocolErrorModel::UnexpectedEof)
    } else {
        match step_of(size, header_of(encode_utf8(lines[from]@))) {
            Err(e) => Err(e),
            Ok((_, Step::Content(n))) => Ok(n),
            Ok((next, Step::Line)) => content_length(lines, from + 1, next),
        }
    }
}

/// Reads the content of a message from the lines of its header section,
/// each with its line break, and the bytes that follow the section.
///
/// The input is expected to provide a message as described by "Base Protocol" of Language Server
/// Protocol.
pub fn read_message(lines: &Vec<String>, content: Vec<u8>) -> (r: Result<String, ProtocolError>)
    ensures
        match r {
            Ok(s) => content_length(lines@, 0, None) == Ok::<usize, ProtocolErrorModel>(
                content@.len() as usize,
            ) && valid_utf8(content@) && s@ == decode_utf8(content@),
            Err(e) => match content_length(lines@, 0, None) {
                Err(m) => e.model() == m,
                Ok(n) => e == ProtocolError::BadContent && !(content@.len() == n && valid_utf8(
                    content@,
                )),
            },
        },
{
    // Read in the "Content-Length: xx" part.
    let mut reader = HeaderReader::new();
    let mut i: usize = 0;
    while i < lines.len()
        invariant
            i <= lines@.len(),
            content_length(lines@, i as int, reader.size) == content_length(lines@, 0, None),
        decreases lines@.len() - i,
    {
        match reader.line(lines[i].as_str()) {
            Err(e) => return Err(e),
            Ok(Step::Content(size)) => return read_content(size, content),
            Ok(Step::Line) => {},
        }
        i = i + 1;
    }
    Err(ProtocolError::UnexpectedEof)
}

} // verus!
