//! The state behind the window: the screen that shows, the two numbers
//! typed in, and the last error.
use vstd::prelude::*;
use vstd::string::StringExecFns;

verus! {

/// The screens of the window.
#[derive(Debug, Clone, Copy, PartialEq, Eq, Structural)]
pub enum Screen {
    Home,
    Ex00,
    Ex01,
    Ex02,
    Ex03,
    Ex04,
    Ex05,
    Ex06,
    Ex07,
    Ex08,
    Ex09,
    Ex10,
    Ex11,
}

impl Default for Screen {
    fn default() -> (screen: Self)
        ensures
            screen == Screen::Home,
    {
        Screen::Home
    }
}

impl Screen {
    /// The text on the button of the screen.
    pub open spec fn label(self) -> Seq<char> {
        match self {
            Screen::Home => "Home"@,
            Screen::Ex00 => "Ex00"@,
            Screen::Ex01 => "Ex01"@,
            Screen::Ex02 => "Ex02"@,
            Screen::Ex03 => "Ex03"@,
            Screen::Ex04 => "Ex04"@,
            Screen::Ex05 => "Ex05"@,
            Screen::Ex06 => "Ex06"@,
            Screen::Ex07 => "Ex07"@,
            Screen::Ex08 => "Ex08"@,
            Screen::Ex09 => "Ex09"@,
            Screen::Ex10 => "Ex10"@,
            Screen::Ex11 => "Ex11"@,
        }
    }

    /// The text on the button of the screen.
    pub fn as_str(&self) -> (s: &'static str)
        ensures
            s@ == self.label(),
    {
        match self {
            Screen::Home => "Home",
            Screen::Ex00 => "Ex00",
            Screen::Ex01 => "Ex01",
            Screen::Ex02 => "Ex02",
            Screen::Ex03 => "Ex03",
            Screen::Ex04 => "Ex04",
            Screen::Ex05 => "Ex05",
            Screen::Ex06 => "Ex06",
            Screen::Ex07 => "Ex07",
            Screen::Ex08 => "Ex08",
            Screen::Ex09 => "Ex09",
            Screen::Ex10 => "Ex10",
            Screen::Ex11 => "Ex11",
        }
    }

    /// Every screen, in the order of the buttons.
    pub fn all() -> (screens: Vec<Screen>)
        ensures
            screens@ == seq![
                Screen::Home,
                Screen::Ex00,
                Screen::Ex01,
                Screen::Ex02,
                Screen::Ex03,
                Screen::Ex04,
                Screen::Ex05,
                Screen::Ex06,
                Screen::Ex07,
                Screen::Ex08,
                Screen::Ex09,
                Screen::Ex10,
                Screen::Ex11,
            ],
    {
        let mut screens: Vec<Screen> = Vec::new();
        screens.push(Screen::Home);
        screens.push(Screen::Ex00);
        screens.push(Screen::Ex01);
        screens.push(Screen::Ex02);
        screens.push(Screen::Ex03);
        screens.push(Screen::Ex04);
        screens.push(Screen::Ex05);
        screens.push(Screen::Ex06);
        screens.push(Screen::Ex07);
        screens.push(Screen::Ex08);
        screens.push(Screen::Ex09);
        screens.push(Screen::Ex10);
        screens.push(Screen::Ex11);
        assert(screens@ =~= seq![
            Screen::Home,
            Screen::Ex00,
            Screen::Ex01,
            Screen::Ex02,
            Screen::Ex03,
            Screen::Ex04,
            Screen::Ex05,
            Screen::Ex06,
            Screen::Ex07,
            Screen::Ex08,
            Screen::Ex09,
            Screen::Ex10,
            Screen::Ex11,
        ]);
        screens
    }
}

/// What the window reports: a button pressed, or new text in one of the
/// two number fields.
#[derive(Clone, Debug)]
pub enum Message {
    Screen(Screen),
    IntInputA(String),
    IntInputB(String),
}

/// Whether `c` is a decimal digit.
pub open spec fn is_digit(c: char) -> bool {
    '0' <= c <= '9'
}

/// The number that the decimal digits spell.
pub open spec fn decimal(digits: Seq<char>) -> int
    decreases digits.len(),
{
    if digits.len() == 0 {
        0
    } else {
        10 * decimal(digits.drop_last()) + (digits.last() as int - '0' as int)
    }
}

/// The 32-bit number that `text` spells: an optional `+`, then decimal
/// digits, at least one and nothing else, for a number that fits.
pub open spec fn decimal_u32(text: Seq<char>) -> Option<u32> {
    let digits = if text.len() > 0 && text[0] == '+' {
        text.drop_first()
    } else {
        text
    };
    if digits.len() > 0 && (forall|i: int| 0 <= i < digits.len() ==> is_digit(#[trigger] digits[i]))
        && decimal(digits) <= u32::MAX {
        Some(decimal(digits) as u32)
    } else {
        None
    }
}

/// `str::parse::<u32>`: succeeds on an optional `+` followed by decimal
/// digits alone, at least one, whose number fits in 32 bits, and gives that
/// number; fails on every other text.
#[verifier::external_body]
fn parse_u32(text: &str) -> (r: Option<u32>)
    ensures
        r == decimal_u32(text@),
{
    text.parse::<u32>().ok()
}

/// The error shown for text that spells no number.
pub open spec fn failure_text(text: Seq<char>) -> Seq<char> {
    "Failed to parse \""@ + text + "\" into u32"@
}

fn failure(text: &str) -> (message: String)
    ensures
        message@ == failure_text(text@),
{
    let mut message = String::new();
    message.append("Failed to parse \"");
    message.append(text);
    message.append("\" into u32");
    assert(message@ =~= failure_text(text@));
    message
}

/// Whether the error is there and reads `text`.
pub open spec fn shows(error: Option<String>, text: Seq<char>) -> bool {
    error matches Some(message) && message@ == text
}

/// The state of the window.
pub struct App {
    pub screen: Screen,
    pub uint_a: u32,
    pub uint_b: u32,
    pub error_string: Option<String>,
}

impl Default for App {
    fn default() -> (app: Self)
        ensures
            app.screen == Screen::Home,
            app.uint_a == 0,
            app.uint_b == 0,
            app.error_string is None,
    {
        App { screen: Screen::Home, uint_a: 0, uint_b: 0, error_string: None }
    }
}

impl App {
    /// Takes a report of the window into the state: a button shows its
    /// screen; text that spells a number sets that number and clears the
    /// error; any other text leaves the numbers and sets the error.
    pub fn update(&mut self, msg: Message)
        ensures
            match msg {
                Message::Screen(value) => {
                    &&& final(self).screen == value
                    &&& final(self).uint_a == old(self).uint_a
                    &&& final(self).uint_b == old(self).uint_b
                    &&& final(self).error_string == old(self).error_string
                },
                Message::IntInputA(value) => {
                    &&& final(self).screen == old(self).screen
                    &&& final(self).uint_b == old(self).uint_b
                    &&& match decimal_u32(value@) {
                        Some(x) => final(self).uint_a == x && final(self).error_string is None,
                        None => final(self).uint_a == old(self).uint_a && shows(
                            final(self).error_string,
                            failure_text(value@),
                        ),
                    }
                },
                Message::IntInputB(value) => {
                    &&& final(self).screen == old(self).screen
                    &&& final(self).uint_a == old(self).uint_a
                    &&& match decimal_u32(value@) {
                        Some(x) => final(self).uint_b == x && final(self).error_string is None,
                        None => final(self).uint_b == old(self).uint_b && shows(
                            final(self).error_string,
                            failure_text(value@),
                        ),
                    }
                },
            },
    {
        match msg {
            Message::Screen(value) => {
                self.screen = value;
            },
            Message::IntInputA(value) => {
                match parse_u32(value.as_str()) {
                    Some(x) => {
                        self.uint_a = x;
                        self.error_string = None;
                    },
                    None => {
                        self.error_string = Some(failure(value.as_str()));
                    },
                }
            },
            Message::IntInputB(value) => {
                match parse_u32(value.as_str()) {
                    Some(x) => {
                        self.uint_b = x;
                        self.error_string = None;
                    },
                    None => {
                        self.error_string = Some(failure(value.as_str()));
                    },
                }
            },
        }
    }
}

} // verus!
