//! Classification of a child process's raw exit information into a small
//! closed set of semantic outcomes, and the rendering of an outcome as the
//! glyph-and-code prefix of a report line.

use vstd::prelude::*;

verus! {

/// The classified result of running the user command for one commit.
#[derive(Clone, Copy, Debug, PartialEq, Eq, Structural)]
pub enum Status {
    /// The process has not finished yet (pre-run indicator).
    Pending,
    /// The process exited with code 0.
    Success(i32),
    /// The process exited with a code in 1..=124, or 126, or 127.
    Failure(i32),
    /// The process exited with code exactly 125.
    Inconclusive(i32),
    /// The process exited with any other code, or with no code at all
    /// (abnormal termination).
    Abort(Option<i32>),
}

/// The exact classification table: which outcome each raw exit holds.
/// `None` stands for abnormal termination without an exit code.
pub open spec fn outcome_of(raw: Option<i32>) -> Status {
    match raw {
        Option::Some(c) => if c == 0 {
            Status::Success(c)
        } else if (1 <= c && c <= 124) || c == 126 || c == 127 {
            Status::Failure(c)
        } else if c == 125 {
            Status::Inconclusive(c)
        } else {
            Status::Abort(Option::Some(c))
        },
        Option::None => Status::Abort(Option::None),
    }
}

/// The numeric code carried by an outcome, when one is present.
pub open spec fn code_of(s: Status) -> Option<i32> {
    match s {
        Status::Pending => Option::None,
        Status::Success(c) => Option::Some(c),
        Status::Failure(c) => Option::Some(c),
        Status::Inconclusive(c) => Option::Some(c),
        Status::Abort(c) => c,
    }
}

impl Status {
    /// Classify raw exit information: 0 is success, 1..=124 and 126 and 127
    /// are failures, 125 is inconclusive, everything else (including the
    /// absence of a code) is an abort.
    pub fn classify(raw: Option<i32>) -> (r: Status)
        ensures
            r == outcome_of(raw),
    {
        match raw {
            Option::Some(c) => {
                if c == 0 {
                    Status::Success(c)
                } else if (1 <= c && c <= 124) || c == 126 || c == 127 {
                    Status::Failure(c)
                } else if c == 125 {
                    Status::Inconclusive(c)
                } else {
                    Status::Abort(Option::Some(c))
                }
            },
            Option::None => Status::Abort(Option::None),
        }
    }

    /// The raw numeric code of this outcome, if it has one.
    pub fn code(&self) -> (r: Option<i32>)
        ensures
            r == code_of(*self),
    {
        match *self {
            Status::Pending => Option::None,
            Status::Success(c) => Option::Some(c),
            Status::Failure(c) => Option::Some(c),
            Status::Inconclusive(c) => Option::Some(c),
            Status::Abort(c) => c,
        }
    }
}

/// The character for one decimal digit.
pub open spec fn digit_char(d: nat) -> char {
    if d == 0 {
        '0'
    } else if d == 1 {
        '1'
    } else if d == 2 {
        '2'
    } else if d == 3 {
        '3'
    } else if d == 4 {
        '4'
    } else if d == 5 {
        '5'
    } else if d == 6 {
        '6'
    } else if d == 7 {
        '7'
    } else if d == 8 {
        '8'
    } else {
        '9'
    }
}

/// A value below 256 rendered in decimal, right-aligned to exactly three
/// characters with space padding.
pub open spec fn padded3(n: nat) -> Seq<char> {
    if n < 10 {
        seq![' ', ' ', digit_char(n)]
    } else if n < 100 {
        seq![' ', digit_char(n / 10), digit_char(n % 10)]
    } else {
        seq![digit_char(n / 100), digit_char((n / 10) % 10), digit_char(n % 10)]
    }
}

/// One decimal digit as a string slice.
pub(crate) fn digit_str(d: u8) -> (r: &'static str)
    requires
        d < 10,
    ensures
        r@ =~= seq![digit_char(d as nat)],
{
    proof {
        reveal_strlit("0");
        reveal_strlit("1");
        reveal_strlit("2");
        reveal_strlit("3");
        reveal_strlit("4");
        reveal_strlit("5");
        reveal_strlit("6");
        reveal_strlit("7");
        reveal_strlit("8");
        reveal_strlit("9");
    }
    match d {
        0 => "0",
        1 => "1",
        2 => "2",
        3 => "3",
        4 => "4",
        5 => "5",
        6 => "6",
        7 => "7",
        8 => "8",
        _ => "9",
    }
}

/// Render a reduced exit code as the three-character display field.
pub fn code_field(v: u8) -> (r: String)
    ensures
        r@ == padded3(v as nat),
        r@.len() == 3,
{
    proof {
        reveal_strlit(" ");
    }
    let mut s = String::new();
    if v < 10 {
        s.append(" ");
        s.append(" ");
        s.append(digit_str(v));
        assert(s@ =~= padded3(v as nat));
    } else if v < 100 {
        s.append(" ");
        s.append(digit_str(v / 10));
        s.append(digit_str(v % 10));
        assert(s@ =~= padded3(v as nat));
    } else {
        s.append(digit_str(v / 100));
        s.append(digit_str((v / 10) % 10));
        s.append(digit_str(v % 10));
        assert(s@ =~= padded3(v as nat));
    }
    s
}

/// The low eight bits of an exit code: what the display shows.
pub fn low_byte(c: i32) -> (r: u8)
    ensures
        r as int == c & 0xff,
{
    proof {
        assert(0 <= (c & 0xff) < 256) by (bit_vector);
    }
    (c & 0xff) as u8
}

/// The colored glyph that opens the report line for an outcome.
pub open spec fn prefix_text(s: Status) -> Seq<char> {
    match s {
        Status::Pending => "%C(bold)%C(yellow)\u{25cf}"@,
        Status::Success(_) => "%C(bold)%C(green)\u{2714}"@,
        Status::Failure(_) => "%C(bold)%C(red)\u{2718}"@,
        Status::Inconclusive(_) => "%C(bold)%C(blue)?"@,
        Status::Abort(_) => "%C(bold)%C(red)!"@,
    }
}

/// The three-character code field of an outcome: the code reduced to its low
/// eight bits when present, blank otherwise.
pub open spec fn code_text(s: Status) -> Seq<char> {
    match code_of(s) {
        Option::Some(c) => padded3((c & 0xff) as nat),
        Option::None => "   "@,
    }
}

/// The whole status prefix of a report line.
pub open spec fn format_text(s: Status) -> Seq<char> {
    prefix_text(s) + code_text(s) + "%Creset"@
}

impl Status {
    /// The status prefix of the report line for this outcome: glyph, then the
    /// three-character code field, then a color reset.
    pub fn get_format(&self) -> (r: String)
        ensures
            r@ == format_text(*self),
    {
        let prefix: &'static str = match *self {
            Status::Pending => "%C(bold)%C(yellow)\u{25cf}",
            Status::Success(_) => "%C(bold)%C(green)\u{2714}",
            Status::Failure(_) => "%C(bold)%C(red)\u{2718}",
            Status::Inconclusive(_) => "%C(bold)%C(blue)?",
            Status::Abort(_) => "%C(bold)%C(red)!",
        };
        let mut s = prefix.to_owned();
        match self.code() {
            Option::Some(c) => {
                let field = code_field(low_byte(c));
                s.append(field.as_str());
                proof {
                    assert((c & 0xff) as nat == ((c & 0xff) as int) as nat) by (bit_vector);
                }
            },
            Option::None => {
                s.append("   ");
            },
        }
        s.append("%Creset");
        assert(s@ =~= format_text(*self));
        s
    }
}

} // verus!
