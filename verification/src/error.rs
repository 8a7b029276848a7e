//! The error every wire decoder and encoder of the library reports.
use vstd::prelude::*;

verus! {

/// Why a frame, record or message could not be read or written.
///
/// The byte-level decoders work on buffers rather than on streams, so the
/// stream failures of the transport stay with the caller that performs the
/// I/O; everything the library itself can detect is listed here.
#[derive(Debug, Clone)]
pub enum FrameError {
    /// The bytes were complete but do not describe a valid value.
    Validation { reason: String },
    /// An unstuffed frame outgrew the largest frame the link carries.
    FrameTooLarge { max: usize },
    /// The input ended in the middle of a value.
    UnexpectedEof,
    /// A `DLE` was followed by a byte that is no frame marker.
    MalformedFrameMarker { marker: u8 },
    /// The checksum after a frame disagrees with its contents.
    InvalidCrc { expected: u16, found: u16 },
}

/// A [`FrameError`] as plain values: a validation error by the text of its
/// reason.
pub enum FrameErrorView {
    Validation(Seq<char>),
    FrameTooLarge(usize),
    UnexpectedEof,
    MalformedFrameMarker(u8),
    InvalidCrc(u16, u16),
}

impl View for FrameError {
    type V = FrameErrorView;

    open spec fn view(&self) -> FrameErrorView {
        match self {
            FrameError::Validation { reason } => FrameErrorView::Validation(reason@),
            FrameError::FrameTooLarge { max } => FrameErrorView::FrameTooLarge(*max),
            FrameError::UnexpectedEof => FrameErrorView::UnexpectedEof,
            FrameError::MalformedFrameMarker { marker } => FrameErrorView::MalformedFrameMarker(*marker),
            FrameError::InvalidCrc { expected, found } => FrameErrorView::InvalidCrc(*expected, *found),
        }
    }
}

/// The error of a result, by its view.
pub open spec fn err_view<T>(r: Result<T, FrameError>) -> Option<FrameErrorView> {
    match r {
        Ok(_) => None,
        Err(e) => Some(e@),
    }
}

/// A validation error whose reason is `text`.
pub open spec fn invalid(text: Seq<char>) -> FrameErrorView {
    FrameErrorView::Validation(text)
}

/// The decimal digit `d`.
pub open spec fn spec_digit(d: nat) -> char {
    if d == 0 {
        '0'
    } else if d == 1 {
        '1'
    } else if d == 2 {
        '2'
    } else if d == 3 {
        '3'
    } else if d == 4 {
        '4'
    } else if d == 5 {
        '5'
    } else if d == 6 {
        '6'
    } else if d == 7 {
        '7'
    } else if d == 8 {
        '8'
    } else {
        '9'
    }
}

/// `n` in decimal, without leading zeros.
pub open spec fn spec_decimal(n: nat) -> Seq<char>
    decreases n,
{
    if n < 10 {
        seq![spec_digit(n)]
    } else {
        spec_decimal(n / 10) + seq![spec_digit(n % 10)]
    }
}

/// The lower-case hexadecimal digit `d`.
pub open spec fn spec_hex_digit(d: nat) -> char {
    if d < 10 {
        spec_digit(d)
    } else if d == 10 {
        'a'
    } else if d == 11 {
        'b'
    } else if d == 12 {
        'c'
    } else if d == 13 {
        'd'
    } else if d == 14 {
        'e'
    } else {
        'f'
    }
}

/// `b` as `0x` and two lower-case hexadecimal digits.
pub open spec fn spec_hex_byte(b: u8) -> Seq<char> {
    seq!['0', 'x', spec_hex_digit((b / 16) as nat), spec_hex_digit((b % 16) as nat)]
}

fn digit_text(d: u64) -> (r: &'static str)
    requires
        d < 16,
    ensures
        r@ == seq![spec_hex_digit(d as nat)],
{
    proof {
        reveal_strlit("0");
        reveal_strlit("1");
        reveal_strlit("2");
        reveal_strlit("3");
        reveal_strlit("4");
        reveal_strlit("5");
        reveal_strlit("6");
        reveal_strlit("7");
        reveal_strlit("8");
        reveal_strlit("9");
        reveal_strlit("a");
        reveal_strlit("b");
        reveal_strlit("c");
        reveal_strlit("d");
        reveal_strlit("e");
        reveal_strlit("f");
    }
    let r = if d == 0 {
        "0"
    } else if d == 1 {
        "1"
    } else if d == 2 {
        "2"
    } else if d == 3 {
        "3"
    } else if d == 4 {
        "4"
    } else if d == 5 {
        "5"
    } else if d == 6 {
        "6"
    } else if d == 7 {
        "7"
    } else if d == 8 {
        "8"
    } else if d == 9 {
        "9"
    } else if d == 10 {
        "a"
    } else if d == 11 {
        "b"
    } else if d == 12 {
        "c"
    } else if d == 13 {
        "d"
    } else if d == 14 {
        "e"
    } else {
        "f"
    };
    assert(r@ =~= seq![spec_hex_digit(d as nat)]);
    r
}

/// Appends `n` in decimal.
pub fn push_decimal(s: &mut String, n: u64)
    ensures
        final(s)@ == old(s)@ + spec_decimal(n as nat),
    decreases n,
{
    if n >= 10 {
        push_decimal(s, n / 10);
    }
    s.append(digit_text(n % 10));
    assert(spec_hex_digit((n % 10) as nat) == spec_digit((n % 10) as nat));
    if n < 10 {
        assert(n % 10 == n);
    }
}

/// Appends `b` as `0x` and two lower-case hexadecimal digits.
pub fn push_hex_byte(s: &mut String, b: u8)
    ensures
        final(s)@ == old(s)@ + spec_hex_byte(b),
{
    proof {
        reveal_strlit("0x");
    }
    s.append("0x");
    s.append(digit_text((b / 16) as u64));
    s.append(digit_text((b % 16) as u64));
    assert(s@ =~= old(s)@ + spec_hex_byte(b));
}

impl FrameError {
    /// Whether this is the error a truncated input produces.
    pub open spec fn is_eof(self) -> bool {
        self is UnexpectedEof
    }

    /// Whether this is a validation error of any reason.
    pub open spec fn is_validation(self) -> bool {
        self is Validation
    }

    /// A validation error for `reason`.
    pub fn validation(reason: &str) -> (r: FrameError)
        ensures
            r@ == invalid(reason@),
    {
        FrameError::Validation { reason: String::from_str(reason) }
    }

    /// A validation error whose reason is `before` and `n` in decimal.
    pub fn validation_num(before: &str, n: u64) -> (r: FrameError)
        ensures
            r@ == invalid(before@ + spec_decimal(n as nat)),
    {
        let mut s = String::from_str(before);
        push_decimal(&mut s, n);
        FrameError::Validation { reason: s }
    }

    /// A validation error whose reason is `before`, `n` in decimal and `after`.
    pub fn validation_with(before: &str, n: u64, after: &str) -> (r: FrameError)
        ensures
            r@ == invalid(before@ + spec_decimal(n as nat) + after@),
    {
        let mut s = String::from_str(before);
        push_decimal(&mut s, n);
        s.append(after);
        FrameError::Validation { reason: s }
    }
}

} // verus!
