//! The options written after the attribute's name: `no_return`,
//! `show_return` and `recursion_limit = N`, separated by commas.
use vstd::prelude::*;
use crate::syntax::{int_literal_digits, integer_digits};
use crate::text::{all_digits, decimal_value, parse_decimal, same_text};

verus! {

/// One token of the option list, as the compiler hands it over.
#[derive(Debug, Clone)]
pub enum OptionToken {
    /// An identifier.
    Ident(String),
    /// A punctuation character.
    Punct(char),
    /// A literal, as written.
    Literal(String),
    /// A delimited group, as written.
    Group(String),
}

/// The configuration of one traced function.
#[derive(Debug, Clone)]
pub struct MacroArgs {
    /// Calls at this depth or deeper abort; never zero.
    pub recursion_limit: Option<usize>,
    /// Show the return value even where the return type is `()`.
    pub show_return: bool,
    /// Never show the return value.
    pub no_return: bool,
}

/// What is wrong with an option list.
#[derive(Debug, Clone)]
pub enum ConfigErrorKind {
    /// A token other than an identifier where an option's name belongs.
    ExpectedName,
    /// An identifier that names no option.
    UnknownArgument(String),
    /// `recursion_limit` without `=` after it.
    ExpectedEquals,
    /// `recursion_limit =` without an integer literal after it.
    ExpectedInteger,
    /// `recursion_limit = 0`.
    ZeroLimit,
    /// A recursion limit too large for a `usize`.
    LimitTooLarge,
    /// Two options not separated by a comma.
    ExpectedComma,
    /// `no_return` together with `show_return`.
    ConflictingReturnOptions,
}

/// An error in an option list and the index of the token it is at; the
/// number of tokens where the list ended too early.
#[derive(Debug, Clone)]
pub struct ConfigError {
    pub kind: ConfigErrorKind,
    pub at: usize,
}

/// The configuration of a function whose attribute has no options.
pub open spec fn default_args() -> MacroArgs {
    MacroArgs { recursion_limit: None, show_return: false, no_return: false }
}

/// Index `j` of the list, or the list's length where `j` lies beyond it.
pub open spec fn position(toks: Seq<OptionToken>, j: int) -> usize {
    if j >= toks.len() {
        toks.len() as usize
    } else {
        j as usize
    }
}

pub open spec fn config_error(kind: ConfigErrorKind, at: usize) -> ConfigError {
    ConfigError { kind, at }
}

/// The base 10 digits of a token that is an integer literal.
pub open spec fn limit_digits(t: OptionToken) -> Option<Seq<char>> {
    match t {
        OptionToken::Literal(lit) => int_literal_digits(lit@),
        _ => None,
    }
}

/// Parsing of the tokens from index `i` on, with `acc` read so far;
/// `sep` tells that a comma or the end is due next.
pub open spec fn parse_from(toks: Seq<OptionToken>, i: int, acc: MacroArgs, sep: bool) -> Result<
    MacroArgs,
    ConfigError,
>
    recommends
        0 <= i,
    decreases toks.len() - i,
{
    if i < 0 || i >= toks.len() {
        Ok(acc)
    } else if sep {
        if toks[i] == OptionToken::Punct(',') {
            parse_from(toks, i + 1, acc, false)
        } else {
            Err(config_error(ConfigErrorKind::ExpectedComma, i as usize))
        }
    } else {
        match toks[i] {
            OptionToken::Ident(name) => {
                if name@ == "recursion_limit"@ {
                    if i + 1 >= toks.len() || toks[i + 1] != OptionToken::Punct('=') {
                        Err(config_error(ConfigErrorKind::ExpectedEquals, position(toks, i + 1)))
                    } else if i + 2 >= toks.len() {
                        Err(config_error(ConfigErrorKind::ExpectedInteger, toks.len() as usize))
                    } else {
                        match limit_digits(toks[i + 2]) {
                            Some(d) => {
                                if !all_digits(d) {
                                    Err(
                                        config_error(
                                            ConfigErrorKind::ExpectedInteger,
                                            (i + 2) as usize,
                                        ),
                                    )
                                } else if decimal_value(d) == 0 {
                                    Err(config_error(ConfigErrorKind::ZeroLimit, (i + 2) as usize))
                                } else if decimal_value(d) > usize::MAX {
                                    Err(
                                        config_error(
                                            ConfigErrorKind::LimitTooLarge,
                                            (i + 2) as usize,
                                        ),
                                    )
                                } else {
                                    parse_from(
                                        toks,
                                        i + 3,
                                        MacroArgs {
                                            recursion_limit: Some(decimal_value(d) as usize),
                                            show_return: acc.show_return,
                                            no_return: acc.no_return,
                                        },
                                        true,
                                    )
                                }
                            },
                            None => Err(
                                config_error(ConfigErrorKind::ExpectedInteger, (i + 2) as usize),
                            ),
                        }
                    }
                } else if name@ == "show_return"@ {
                    if acc.no_return {
                        Err(config_error(ConfigErrorKind::ConflictingReturnOptions, i as usize))
                    } else {
                        parse_from(
                            toks,
                            i + 1,
                            MacroArgs {
                                recursion_limit: acc.recursion_limit,
                                show_return: true,
                                no_return: false,
                            },
                            true,
                        )
                    }
                } else if name@ == "no_return"@ {
                    if acc.show_return {
                        Err(config_error(ConfigErrorKind::ConflictingReturnOptions, i as usize))
                    } else {
                        parse_from(
                            toks,
                            i + 1,
                            MacroArgs {
                                recursion_limit: acc.recursion_limit,
                                show_return: false,
                                no_return: true,
                            },
                            true,
                        )
                    }
                } else {
                    Err(config_error(ConfigErrorKind::UnknownArgument(name), i as usize))
                }
            },
            _ => Err(config_error(ConfigErrorKind::ExpectedName, i as usize)),
        }
    }
}

/// The configuration that an option list describes, or its first error.
pub open spec fn parse_options(toks: Seq<OptionToken>) -> Result<MacroArgs, ConfigError> {
    parse_from(toks, 0, default_args(), false)
}

/// Whether an exit line shows the return value, for a function whose return
/// type is `()` exactly when `returns_unit` holds.
pub open spec fn shows_value(args: MacroArgs, returns_unit: bool) -> bool {
    !args.no_return && (!returns_unit || args.show_return)
}

/// The text of a diagnostic for an error of this kind.
pub open spec fn error_message(kind: ConfigErrorKind) -> Seq<char> {
    match kind {
        ConfigErrorKind::ExpectedName => "expected an argument name"@,
        ConfigErrorKind::UnknownArgument(name) => "unknown argument `"@ + name@ + "`"@,
        ConfigErrorKind::ExpectedEquals => "expected `=` after `recursion_limit`"@,
        ConfigErrorKind::ExpectedInteger => "expected an integer literal"@,
        ConfigErrorKind::ZeroLimit => "recursion_limit must be greater than 0"@,
        ConfigErrorKind::LimitTooLarge => "recursion_limit is too large"@,
        ConfigErrorKind::ExpectedComma => "expected `,` between arguments"@,
        ConfigErrorKind::ConflictingReturnOptions => "`no_return` and `show_return` cannot be combined"@,
    }
}

fn is_punct(t: &OptionToken, c: char) -> (r: bool)
    ensures
        r == (*t == OptionToken::Punct(c)),
{
    match t {
        OptionToken::Punct(p) => *p == c,
        _ => false,
    }
}

impl ConfigError {
    /// The diagnostic text of this error.
    pub fn message(&self) -> (r: String)
        ensures
            r@ == error_message(self.kind),
    {
        match &self.kind {
            ConfigErrorKind::ExpectedName => String::from_str("expected an argument name"),
            ConfigErrorKind::UnknownArgument(name) => {
                let mut s = String::from_str("unknown argument `");
                s.append(name.as_str());
                s.append("`");
                s
            },
            ConfigErrorKind::ExpectedEquals => String::from_str(
                "expected `=` after `recursion_limit`",
            ),
            ConfigErrorKind::ExpectedInteger => String::from_str("expected an integer literal"),
            ConfigErrorKind::ZeroLimit => String::from_str(
                "recursion_limit must be greater than 0",
            ),
            ConfigErrorKind::LimitTooLarge => String::from_str("recursion_limit is too large"),
            ConfigErrorKind::ExpectedComma => String::from_str("expected `,` between arguments"),
            ConfigErrorKind::ConflictingReturnOptions => String::from_str(
                "`no_return` and `show_return` cannot be combined",
            ),
        }
    }
}

impl Default for MacroArgs {
    /// The configuration of an attribute without options.
    fn default() -> (r: MacroArgs)
        ensures
            r == default_args(),
    {
        MacroArgs::new()
    }
}

impl MacroArgs {
    /// The configuration of an attribute without options.
    pub fn new() -> (r: MacroArgs)
        ensures
            r == default_args(),
    {
        MacroArgs { recursion_limit: None, show_return: false, no_return: false }
    }

    /// Whether `no_return` was given.
    pub fn has_no_return(&self) -> (r: bool)
        ensures
            r == self.no_return,
    {
        self.no_return
    }

    /// Whether exit lines show the return value, for a function whose return
    /// type is `()` exactly when `returns_unit` holds.
    pub fn shows_return_value(&self, returns_unit: bool) -> (r: bool)
        ensures
            r == shows_value(*self, returns_unit),
    {
        !self.no_return && (!returns_unit || self.show_return)
    }

    /// Reads an option list: names separated by commas, a trailing comma
    /// allowed, `recursion_limit` followed by `=` and a positive integer.
    pub fn parse(toks: &Vec<OptionToken>) -> (r: Result<MacroArgs, ConfigError>)
        ensures
            r == parse_options(toks@),
    {
        let n = toks.len();
        let mut acc = MacroArgs::new();
        let mut sep = false;
        let mut i: usize = 0;
        while i < n
            invariant
                n == toks@.len(),
                i <= n,
                parse_from(toks@, i as int, acc, sep) == parse_options(toks@),
            decreases n - i,
        {
            if sep {
                if is_punct(&toks[i], ',') {
                    sep = false;
                    i = i + 1;
                } else {
                    return Err(ConfigError { kind: ConfigErrorKind::ExpectedComma, at: i });
                }
            } else {
                match &toks[i] {
                    OptionToken::Ident(name) => {
                        if same_text(name.as_str(), "recursion_limit") {
                            if i + 1 >= n || !is_punct(&toks[i + 1], '=') {
                                let at = if i + 1 < n {
                                    i + 1
                                } else {
                                    n
                                };
                                return Err(ConfigError { kind: ConfigErrorKind::ExpectedEquals, at });
                            }
                            if i + 2 >= n {
                                return Err(
                                    ConfigError { kind: ConfigErrorKind::ExpectedInteger, at: n },
                                );
                            }
                            let digits = match &toks[i + 2] {
                                OptionToken::Literal(lit) => integer_digits(lit.as_str()),
                                _ => None,
                            };
                            match digits {
                                Some(d) => {
                                    match parse_decimal(d.as_str()) {
                                        Some(v) => {
                                            if v == 0 {
                                                return Err(
                                                    ConfigError {
                                                        kind: ConfigErrorKind::ZeroLimit,
                                                        at: i + 2,
                                                    },
                                                );
                                            }
                                            acc = MacroArgs {
                                                recursion_limit: Some(v),
                                                show_return: acc.show_return,
                                                no_return: acc.no_return,
                                            };
                                        },
                                        None => {
                                            let kind = if d.unicode_len() > 0 && all_digit_chars(
                                                d.as_str(),
                                            ) {
                                                ConfigErrorKind::LimitTooLarge
                                            } else {
                                                ConfigErrorKind::ExpectedInteger
                                            };
                                            return Err(ConfigError { kind, at: i + 2 });
                                        },
                                    }
                                },
                                _ => {
                                    return Err(
                                        ConfigError {
                                            kind: ConfigErrorKind::ExpectedInteger,
                                            at: i + 2,
                                        },
                                    );
                                },
                            }
                            i = i + 3;
                        } else if same_text(name.as_str(), "show_return") {
                            if acc.no_return {
                                return Err(
                                    ConfigError {
                                        kind: ConfigErrorKind::ConflictingReturnOptions,
                                        at: i,
                                    },
                                );
                            }
                            acc = MacroArgs {
                                recursion_limit: acc.recursion_limit,
                                show_return: true,
                                no_return: false,
                            };
                            i = i + 1;
                        } else if same_text(name.as_str(), "no_return") {
                            if acc.show_return {
                                return Err(
                                    ConfigError {
                                        kind: ConfigErrorKind::ConflictingReturnOptions,
                                        at: i,
                                    },
                                );
                            }
                            acc = MacroArgs {
                                recursion_limit: acc.recursion_limit,
                                show_return: false,
                                no_return: true,
                            };
                            i = i + 1;
                        } else {
                            return Err(
                                ConfigError {
                                    kind: ConfigErrorKind::UnknownArgument(name.clone()),
                                    at: i,
                                },
                            );
                        }
                        sep = true;
                    },
                    _ => {
                        return Err(ConfigError { kind: ConfigErrorKind::ExpectedName, at: i });
                    },
                }
            }
        }
        Ok(acc)
    }
}

/// Whether every character of `s` is an ASCII digit.
fn all_digit_chars(s: &str) -> (r: bool)
    ensures
        r == (forall|k: int| 0 <= k < s@.len() ==> crate::text::is_digit(#[trigger] s@[k])),
{
    let n = s.unicode_len();
    let mut i: usize = 0;
    while i < n
        invariant
            n == s@.len(),
            i <= n,
            forall|k: int| 0 <= k < i ==> crate::text::is_digit(#[trigger] s@[k]),
        decreases n - i,
    {
        let c = s.get_char(i);
        if c < '0' || c > '9' {
            return false;
        }
        i = i + 1;
    }
    true
}

} // verus!
