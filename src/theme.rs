use vstd::prelude::*;

verus! {

/// The eight colours of a terminal's palette.
#[derive(Clone, Copy, Debug, PartialEq, Eq, Structural)]
pub enum Color {
    Black,
    Red,
    Green,
    Yellow,
    Blue,
    Magenta,
    Cyan,
    White,
}

/// The palette index of a colour.
pub open spec fn color_index(c: Color) -> nat {
    match c {
        Color::Black => 0,
        Color::Red => 1,
        Color::Green => 2,
        Color::Yellow => 3,
        Color::Blue => 4,
        Color::Magenta => 5,
        Color::Cyan => 6,
        Color::White => 7,
    }
}

/// The decimal digits of a palette index below 16.
pub open spec fn index_digits(n: nat) -> Seq<char> {
    if n < 10 {
        seq![(n + 48) as char]
    } else {
        seq!['1', ((n - 10) + 48) as char]
    }
}

/// The escape sequence that selects palette entry `n` as the foreground,
/// or as the background.
pub open spec fn sgr(background: bool, n: nat) -> Seq<char> {
    seq!['\x1b', '['] + (if background {
        seq!['4', '8']
    } else {
        seq!['3', '8']
    }) + seq![';', '5', ';'] + index_digits(n) + seq!['m']
}

/// The escape sequence of a colour, bright or not, as foreground or
/// background.
pub open spec fn color_code(c: Color, bright: bool, background: bool) -> Seq<char> {
    sgr(background, color_index(c) + if bright {
        8nat
    } else {
        0nat
    })
}

impl Color {
    /// The escape sequence of this colour as the foreground colour in its normal shade.
    pub(crate) fn as_normal_ansi(&self) -> (r: &'static str)
        ensures
            r@ == color_code(*self, false, false),
    {
        match self {
            Color::Black => {
                let r = "\x1b[38;5;0m";
                proof {
                    reveal_strlit("\x1b[38;5;0m");
                    assert(r@ =~= color_code(*self, false, false));
                }
                r
            },
            Color::Red => {
                let r = "\x1b[38;5;1m";
                proof {
                    reveal_strlit("\x1b[38;5;1m");
                    assert(r@ =~= color_code(*self, false, false));
                }
                r
            },
            Color::Green => {
                let r = "\x1b[38;5;2m";
                proof {
                    reveal_strlit("\x1b[38;5;2m");
                    assert(r@ =~= color_code(*self, false, false));
                }
                r
            },
            Color::Yellow => {
                let r = "\x1b[38;5;3m";
                proof {
                    reveal_strlit("\x1b[38;5;3m");
                    assert(r@ =~= color_code(*self, false, false));
                }
                r
            },
            Color::Blue => {
                let r = "\x1b[38;5;4m";
                proof {
                    reveal_strlit("\x1b[38;5;4m");
                    assert(r@ =~= color_code(*self, false, false));
                }
                r
            },
            Color::Magenta => {
                let r = "\x1b[38;5;5m";
                proof {
                    reveal_strlit("\x1b[38;5;5m");
                    assert(r@ =~= color_code(*self, false, false));
                }
                r
            },
            Color::Cyan => {
                let r = "\x1b[38;5;6m";
                proof {
                    reveal_strlit("\x1b[38;5;6m");
                    assert(r@ =~= color_code(*self, false, false));
                }
                r
            },
            Color::White => {
                let r = "\x1b[38;5;7m";
                proof {
                    reveal_strlit("\x1b[38;5;7m");
                    assert(r@ =~= color_code(*self, false, false));
                }
                r
            },
        }
    }

    /// The escape sequence of this colour as the foreground colour in its bright shade.
    pub(crate) fn as_bright_ansi(&self) -> (r: &'static str)
        ensures
            r@ == color_code(*self, true, false),
    {
        match self {
            Color::Black => {
                let r = "\x1b[38;5;8m";
                proof {
                    reveal_strlit("\x1b[38;5;8m");
                    assert(r@ =~= color_code(*self, true, false));
                }
                r
            },
            Color::Red => {
                let r = "\x1b[38;5;9m";
                proof {
                    reveal_strlit("\x1b[38;5;9m");
                    assert(r@ =~= color_code(*self, true, false));
                }
                r
            },
            Color::Green => {
                let r = "\x1b[38;5;10m";
                proof {
                    reveal_strlit("\x1b[38;5;10m");
                    assert(r@ =~= color_code(*self, true, false));
                }
                r
            },
            Color::Yellow => {
                let r = "\x1b[38;5;11m";
                proof {
                    reveal_strlit("\x1b[38;5;11m");
                    assert(r@ =~= color_code(*self, true, false));
                }
                r
            },
            Color::Blue => {
                let r = "\x1b[38;5;12m";
                proof {
                    reveal_strlit("\x1b[38;5;12m");
                    assert(r@ =~= color_code(*self, true, false));
                }
                r
            },
            Color::Magenta => {
                let r = "\x1b[38;5;13m";
                proof {
                    reveal_strlit("\x1b[38;5;13m");
                    assert(r@ =~= color_code(*self, true, false));
                }
                r
            },
            Color::Cyan => {
                let r = "\x1b[38;5;14m";
                proof {
                    reveal_strlit("\x1b[38;5;14m");
                    assert(r@ =~= color_code(*self, true, false));
                }
                r
            },
            Color::White => {
                let r = "\x1b[38;5;15m";
                proof {
                    reveal_strlit("\x1b[38;5;15m");
                    assert(r@ =~= color_code(*self, true, false));
                }
                r
            },
        }
    }

    /// The escape sequence of this colour as the background colour in its normal shade.
    pub(crate) fn as_normal_bg_ansi(&self) -> (r: &'static str)
        ensures
            r@ == color_code(*self, false, true),
    {
        match self {
            Color::Black => {
                let r = "\x1b[48;5;0m";
                proof {
                    reveal_strlit("\x1b[48;5;0m");
                    assert(r@ =~= color_code(*self, false, true));
                }
                r
            },
            Color::Red => {
                let r = "\x1b[48;5;1m";
                proof {
                    reveal_strlit("\x1b[48;5;1m");
                    assert(r@ =~= color_code(*self, false, true));
                }
                r
            },
            Color::Green => {
                let r = "\x1b[48;5;2m";
                proof {
                    reveal_strlit("\x1b[48;5;2m");
                    assert(r@ =~= color_code(*self, false, true));
                }
                r
            },
            Color::Yellow => {
                let r = "\x1b[48;5;3m";
                proof {
                    reveal_strlit("\x1b[48;5;3m");
                    assert(r@ =~= color_code(*self, false, true));
                }
                r
            },
            Color::Blue => {
                let r = "\x1b[48;5;4m";
                proof {
                    reveal_strlit("\x1b[48;5;4m");
                    assert(r@ =~= color_code(*self, false, true));
                }
                r
            },
            Color::Magenta => {
                let r = "\x1b[48;5;5m";
                proof {
                    reveal_strlit("\x1b[48;5;5m");
                    assert(r@ =~= color_code(*self, false, true));
                }
                r
            },
            Color::Cyan => {
                let r = "\x1b[48;5;6m";
                proof {
                    reveal_strlit("\x1b[48;5;6m");
                    assert(r@ =~= color_code(*self, false, true));
                }
                r
            },
            Color::White => {
                let r = "\x1b[48;5;7m";
                proof {
                    reveal_strlit("\x1b[48;5;7m");
                    assert(r@ =~= color_code(*self, false, true));
                }
                r
            },
        }
    }

    /// The escape sequence of this colour as the background colour in its bright shade.
    pub(crate) fn as_bright_bg_ansi(&self) -> (r: &'static str)
        ensures
            r@ == color_code(*self, true, true),
    {
        match self {
            Color::Black => {
                let r = "\x1b[48;5;8m";
                proof {
                    reveal_strlit("\x1b[48;5;8m");
                    assert(r@ =~= color_code(*self, true, true));
                }
                r
            },
            Color::Red => {
                let r = "\x1b[48;5;9m";
                proof {
                    reveal_strlit("\x1b[48;5;9m");
                    assert(r@ =~= color_code(*self, true, true));
                }
                r
            },
            Color::Green => {
                let r = "\x1b[48;5;10m";
                proof {
                    reveal_strlit("\x1b[48;5;10m");
                    assert(r@ =~= color_code(*self, true, true));
                }
                r
            },
            Color::Yellow => {
                let r = "\x1b[48;5;11m";
                proof {
                    reveal_strlit("\x1b[48;5;11m");
                    assert(r@ =~= color_code(*self, true, true));
                }
                r
            },
            Color::Blue => {
                let r = "\x1b[48;5;12m";
                proof {
                    reveal_strlit("\x1b[48;5;12m");
                    assert(r@ =~= color_code(*self, true, true));
                }
                r
            },
            Color::Magenta => {
                let r = "\x1b[48;5;13m";
                proof {
                    reveal_strlit("\x1b[48;5;13m");
                    assert(r@ =~= color_code(*self, true, true));
                }
                r
            },
            Color::Cyan => {
                let r = "\x1b[48;5;14m";
                proof {
                    reveal_strlit("\x1b[48;5;14m");
                    assert(r@ =~= color_code(*self, true, true));
                }
                r
            },
            Color::White => {
                let r = "\x1b[48;5;15m";
                proof {
                    reveal_strlit("\x1b[48;5;15m");
                    assert(r@ =~= color_code(*self, true, true));
                }
                r
            },
        }
    }
}

/// A colour with its shade and whether it colours the text or the
/// background.
#[derive(Clone, Copy, Debug, PartialEq, Eq, Structural)]
pub struct Style {
    color: Color,
    bright: bool,
    ground: bool,
}

impl Style {
    /// The colour.
    pub closed spec fn spec_color(&self) -> Color {
        self.color
    }

    /// Whether the shade is bright.
    pub closed spec fn spec_bright(&self) -> bool {
        self.bright
    }

    /// Whether it colours the background.
    pub closed spec fn spec_background(&self) -> bool {
        self.ground
    }

    /// A normal foreground style of `color`.
    pub fn new(color: Color) -> (r: Self)
        ensures
            r.spec_color() == color,
            !r.spec_bright(),
            !r.spec_background(),
    {
        Self { color, bright: false, ground: false }
    }

    /// This style, bright or not.
    pub fn bright(self, bright: bool) -> (r: Self)
        ensures
            r.spec_color() == self.spec_color(),
            r.spec_bright() == bright,
            r.spec_background() == self.spec_background(),
    {
        Self { bright, ..self }
    }

    /// This style, colouring the text.
    pub fn foreground(self) -> (r: Self)
        ensures
            r.spec_color() == self.spec_color(),
            r.spec_bright() == self.spec_bright(),
            !r.spec_background(),
    {
        Self { ground: false, ..self }
    }

    /// This style, colouring the background.
    pub fn background(self) -> (r: Self)
        ensures
            r.spec_color() == self.spec_color(),
            r.spec_bright() == self.spec_bright(),
            r.spec_background(),
    {
        Self { ground: true, ..self }
    }

    /// The escape sequence that turns this style on.
    pub fn as_ansi(&self) -> (r: &'static str)
        ensures
            r@ == color_code(self.spec_color(), self.spec_bright(), self.spec_background()),
    {
        if self.bright {
            if self.ground {
                self.color.as_bright_bg_ansi()
            } else {
                self.color.as_bright_ansi()
            }
        } else {
            if self.ground {
                self.color.as_normal_bg_ansi()
            } else {
                self.color.as_normal_ansi()
            }
        }
    }
}

} // verus!
