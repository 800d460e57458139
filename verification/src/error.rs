use vstd::prelude::*;

verus! {

/// Every way an operation of this library can fail.
#[derive(Debug, Clone, PartialEq, Eq)]
pub enum RmpegError {
    Io(String),
    InvalidData(String),
    Unsupported(String),
    UnexpectedEof { needed: usize, remaining: usize },
    Usage(String),
}

/// Shorthand for the result type used across the library.
pub type Result<T> = core::result::Result<T, RmpegError>;

/// The kind of an error, without its message text.
pub enum Failure {
    Io,
    InvalidData,
    Unsupported,
    UnexpectedEof { needed: int, remaining: int },
    Usage,
}

/// The kind of `e`.
pub open spec fn failure(e: RmpegError) -> Failure {
    match e {
        RmpegError::Io(_) => Failure::Io,
        RmpegError::InvalidData(_) => Failure::InvalidData,
        RmpegError::Unsupported(_) => Failure::Unsupported,
        RmpegError::UnexpectedEof { needed, remaining } => Failure::UnexpectedEof {
            needed: needed as int,
            remaining: remaining as int,
        },
        RmpegError::Usage(_) => Failure::Usage,
    }
}

/// The message an error carries (none for an end-of-input error, which carries numbers).
pub open spec fn error_text(e: RmpegError) -> Seq<char> {
    match e {
        RmpegError::Io(m) => m@,
        RmpegError::InvalidData(m) => m@,
        RmpegError::Unsupported(m) => m@,
        RmpegError::UnexpectedEof { .. } => Seq::empty(),
        RmpegError::Usage(m) => m@,
    }
}

/// A result with its error reduced to the error's kind.
pub open spec fn outcome<T>(r: Result<T>) -> core::result::Result<T, Failure> {
    match r {
        Ok(v) => Ok(v),
        Err(e) => Err(failure(e)),
    }
}

/// The end-of-input failure for a read that needed `needed` bytes.
pub open spec fn eof(needed: int, remaining: int) -> Failure {
    Failure::UnexpectedEof { needed, remaining }
}

/// An `InvalidData` error carrying `message`.
pub fn invalid_data(message: &str) -> (e: RmpegError)
    ensures
        e matches RmpegError::InvalidData(m) && m@ == message@,
{
    RmpegError::InvalidData(message.to_string())
}

/// An `Unsupported` error carrying `message`.
pub fn unsupported(message: &str) -> (e: RmpegError)
    ensures
        e matches RmpegError::Unsupported(m) && m@ == message@,
{
    RmpegError::Unsupported(message.to_string())
}

/// The end-of-input error for a read that needed `needed` bytes of `remaining`.
pub fn unexpected_eof(needed: usize, remaining: usize) -> (e: RmpegError)
    ensures
        e == (RmpegError::UnexpectedEof { needed, remaining }),
{
    RmpegError::UnexpectedEof { needed, remaining }
}

/// The decimal digit character for `d` (0 to 9).
pub open spec fn digit_char(d: int) -> char {
    if d == 0 { '0' } else if d == 1 { '1' } else if d == 2 { '2' } else if d == 3 { '3' }
    else if d == 4 { '4' } else if d == 5 { '5' } else if d == 6 { '6' } else if d == 7 { '7' }
    else if d == 8 { '8' } else { '9' }
}

/// The shortest decimal spelling of `n`.
pub open spec fn decimal_chars(n: nat) -> Seq<char>
    decreases n,
{
    if n < 10 {
        seq![digit_char(n as int)]
    } else {
        decimal_chars(n / 10).push(digit_char((n % 10) as int))
    }
}

fn digit_str(d: u64) -> (s: &'static str)
    requires
        d < 10,
    ensures
        s@ == seq![digit_char(d as int)],
{
    proof {
        reveal_strlit("0");
        reveal_strlit("1");
        reveal_strlit("2");
        reveal_strlit("3");
        reveal_strlit("4");
        reveal_strlit("5");
        reveal_strlit("6");
        reveal_strlit("7");
        reveal_strlit("8");
        reveal_strlit("9");
    }
    if d == 0 { "0" } else if d == 1 { "1" } else if d == 2 { "2" } else if d == 3 { "3" }
    else if d == 4 { "4" } else if d == 5 { "5" } else if d == 6 { "6" } else if d == 7 { "7" }
    else if d == 8 { "8" } else { "9" }
}

/// Appends the decimal spelling of `n` to `out`.
pub fn push_decimal(out: &mut String, n: u64)
    ensures
        final(out)@ == old(out)@ + decimal_chars(n as nat),
    decreases n,
{
    if n >= 10 {
        push_decimal(out, n / 10);
    }
    out.append(digit_str(n % 10));
    proof {
        assert(old(out)@ + decimal_chars(n as nat) =~= old(out)@ + (if n >= 10 { decimal_chars((n / 10) as nat) } else { Seq::empty() }) + seq![digit_char((n % 10) as int)]);
    }
}

/// `prefix` followed by the decimal spelling of `n`.
pub fn with_number(prefix: &str, n: u64) -> (s: String)
    ensures
        s@ == prefix@ + decimal_chars(n as nat),
{
    let mut s = prefix.to_string();
    push_decimal(&mut s, n);
    s
}

/// The lower-case hexadecimal digit character for `d` (0 to 15).
pub open spec fn hex_digit_char(d: int) -> char {
    if d < 10 { digit_char(d) } else if d == 10 { 'a' } else if d == 11 { 'b' } else if d == 12 { 'c' }
    else if d == 13 { 'd' } else if d == 14 { 'e' } else { 'f' }
}

/// The shortest lower-case hexadecimal spelling of `n`.
pub open spec fn hex_chars(n: nat) -> Seq<char>
    decreases n,
{
    if n < 16 {
        seq![hex_digit_char(n as int)]
    } else {
        hex_chars(n / 16).push(hex_digit_char((n % 16) as int))
    }
}

fn hex_digit_str(d: u64) -> (s: &'static str)
    requires
        d < 16,
    ensures
        s@ == seq![hex_digit_char(d as int)],
{
    if d < 10 {
        return digit_str(d);
    }
    proof {
        reveal_strlit("a");
        reveal_strlit("b");
        reveal_strlit("c");
        reveal_strlit("d");
        reveal_strlit("e");
        reveal_strlit("f");
    }
    if d == 10 { "a" } else if d == 11 { "b" } else if d == 12 { "c" } else if d == 13 { "d" }
    else if d == 14 { "e" } else { "f" }
}

/// Appends the lower-case hexadecimal spelling of `n` to `out`.
pub fn push_hex(out: &mut String, n: u64)
    ensures
        final(out)@ == old(out)@ + hex_chars(n as nat),
    decreases n,
{
    if n >= 16 {
        push_hex(out, n / 16);
    }
    out.append(hex_digit_str(n % 16));
    proof {
        assert(old(out)@ + hex_chars(n as nat) =~= old(out)@ + (if n >= 16 { hex_chars((n / 16) as nat) } else { Seq::empty() }) + seq![hex_digit_char((n % 16) as int)]);
    }
}

/// Appends the two lower-case hexadecimal digits of `b`.
pub fn push_hex_byte(out: &mut String, b: u8)
    ensures
        final(out)@ == old(out)@ + seq![hex_digit_char((b / 16) as int), hex_digit_char((b % 16) as int)],
{
    out.append(hex_digit_str((b / 16) as u64));
    out.append(hex_digit_str((b % 16) as u64));
}

/// `prefix` followed by `0x` and the lower-case hexadecimal spelling of `n`.
pub fn with_hex(prefix: &str, n: u64) -> (s: String)
    ensures
        s@ == prefix@ + seq!['0', 'x'] + hex_chars(n as nat),
{
    let mut s = prefix.to_string();
    s.append("0x");
    proof {
        reveal_strlit("0x");
    }
    push_hex(&mut s, n);
    s
}

/// `prefix` followed by the decimal spelling of the signed `n`.
pub fn with_signed(prefix: &str, n: i64) -> (s: String)
    ensures
        n >= 0 ==> s@ == prefix@ + decimal_chars(n as nat),
        n < 0 ==> s@ == prefix@ + seq!['-'] + decimal_chars((-n) as nat),
{
    let mut s = prefix.to_string();
    if n >= 0 {
        push_decimal(&mut s, n as u64);
    } else {
        s.append("-");
        proof { reveal_strlit("-"); }
        let magnitude: u64 = if n == i64::MIN { 0x8000_0000_0000_0000 } else { (-n) as u64 };
        push_decimal(&mut s, magnitude);
    }
    s
}

/// The bytes read as UTF-8 text, with each invalid sequence shown as U+FFFD
/// (`String::from_utf8_lossy`, then `into_owned`); only used to word error messages.
/// The contract states what the documentation promises of valid UTF-8, that it comes
/// back as the text it encodes; what invalid input gives is left unsaid.
#[verifier::external_body]
pub fn lossy_text(bytes: &[u8]) -> (s: String)
    ensures
        vstd::utf8::valid_utf8(bytes@) ==> s@ == vstd::utf8::decode_utf8(bytes@),
{
    String::from_utf8_lossy(bytes).into_owned()
}

/// `prefix`, then `middle`, then `suffix`.
pub fn join3(prefix: &str, middle: &str, suffix: &str) -> (s: String)
    ensures
        s@ == prefix@ + middle@ + suffix@,
{
    let mut s = prefix.to_string();
    s.append(middle);
    s.append(suffix);
    s
}

impl RmpegError {
    /// The text this error is shown as.
    pub fn message(&self) -> (s: String)
        ensures
            match self {
                RmpegError::Io(m) => s@ == "I/O error: "@ + m@,
                RmpegError::InvalidData(m) => s@ == "invalid data: "@ + m@,
                RmpegError::Unsupported(m) => s@ == "unsupported: "@ + m@,
                RmpegError::UnexpectedEof { needed, remaining } => s@ == "unexpected end of input: needed "@
                    + decimal_chars(*needed as nat) + " bytes, had "@ + decimal_chars(*remaining as nat),
                RmpegError::Usage(m) => s@ == m@,
            },
    {
        match self {
            RmpegError::Io(m) => {
                let mut s = "I/O error: ".to_string();
                s.append(m.as_str());
                s
            },
            RmpegError::InvalidData(m) => {
                let mut s = "invalid data: ".to_string();
                s.append(m.as_str());
                s
            },
            RmpegError::Unsupported(m) => {
                let mut s = "unsupported: ".to_string();
                s.append(m.as_str());
                s
            },
            RmpegError::UnexpectedEof { needed, remaining } => {
                let mut s = with_number("unexpected end of input: needed ", *needed as u64);
                s.append(" bytes, had ");
                push_decimal(&mut s, *remaining as u64);
                s
            },
            RmpegError::Usage(m) => m.clone(),
        }
    }
}

} // verus!
