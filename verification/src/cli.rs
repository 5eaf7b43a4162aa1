//! The raw flags that the user's argument tokens spell out.
//!
//! Every recognised argument is looked for once. The first token that fits it
//! is taken off the working list, so that no token counts twice and whatever
//! stays on the list is known not to be understood.

use crate::error::ConfigError;
use crate::scan::{
    first_token, lemma_first_fit_is, lemma_flag_found, lemma_no_fit, lemma_stripping_keeps_first,
    stripped, values_for, without_first, Shape,
};
use crate::text::{split, starts_with};
use vstd::prelude::*;
use vstd::string::*;

verus! {

/// The flags that the argument tokens set, before they are laid over any
/// defaults.
///
/// A record is made by [`CliConfig::from_os`] or as the empty record, and read
/// from then on. No record holds two flags that rule each other out.
pub struct CliConfig {
    disallow_focus: bool,
    allow_focus: bool,
    disallow_skip: bool,
    allow_skip: bool,
    mute_keyword: bool,
    ignore_keywords: bool,
    mute_filters: bool,
    run_rust_tests: bool,
    run_rust_benchmarks: bool,
    keyword: String,
    filters: Vec<String>,
}

/// A [`CliConfig`] as plain values.
pub struct RawFlags {
    pub disallow_focus: bool,
    pub allow_focus: bool,
    pub disallow_skip: bool,
    pub allow_skip: bool,
    pub mute_keyword: bool,
    pub ignore_keywords: bool,
    pub mute_filters: bool,
    pub run_rust_tests: bool,
    pub run_rust_benchmarks: bool,
    /// The keyword to run by; empty where none was given.
    pub keyword: Seq<char>,
    /// The filters to run by; empty where none were given.
    pub filters: Seq<Seq<char>>,
}

impl RawFlags {
    /// The record in which nothing is set.
    pub open spec fn none() -> RawFlags {
        RawFlags {
            disallow_focus: false,
            allow_focus: false,
            disallow_skip: false,
            allow_skip: false,
            mute_keyword: false,
            ignore_keywords: false,
            mute_filters: false,
            run_rust_tests: false,
            run_rust_benchmarks: false,
            keyword: Seq::empty(),
            filters: Seq::empty(),
        }
    }

    /// Whether no two flags that rule each other out are both set.
    pub open spec fn consistent(self) -> bool {
        &&& !(self.allow_focus && self.disallow_focus)
        &&& !(self.allow_skip && self.disallow_skip)
        &&& !(self.mute_keyword && self.keyword.len() > 0)
        &&& !(self.mute_filters && self.filters.len() > 0)
    }
}

impl View for CliConfig {
    type V = RawFlags;

    closed spec fn view(&self) -> RawFlags {
        RawFlags {
            disallow_focus: self.disallow_focus,
            allow_focus: self.allow_focus,
            disallow_skip: self.disallow_skip,
            allow_skip: self.allow_skip,
            mute_keyword: self.mute_keyword,
            ignore_keywords: self.ignore_keywords,
            mute_filters: self.mute_filters,
            run_rust_tests: self.run_rust_tests,
            run_rust_benchmarks: self.run_rust_benchmarks,
            keyword: self.keyword@,
            filters: self.filters.deep_view(),
        }
    }
}

/// The shapes that are looked for, in the order in which they are looked for.
pub open spec fn recognised() -> Seq<Shape> {
    seq![
        Shape::Flag(CliConfig::CMD_USER_RUST_TESTS@),
        Shape::Flag(CliConfig::CMD_USER_RUST_BENCHMARKS@),
        Shape::Flag(CliConfig::CMD_USER_DISALLOW_FOCUS@),
        Shape::Flag(CliConfig::CMD_USER_ALLOW_FOCUS@),
        Shape::Flag(CliConfig::CMD_USER_DISALLOW_SKIP@),
        Shape::Flag(CliConfig::CMD_USER_ALLOW_SKIP@),
        Shape::Flag(CliConfig::CMD_USER_MUTE_KEYWORD@),
        Shape::Flag(CliConfig::CMD_USER_IGNORE_KEYWORDS@),
        Shape::Flag(CliConfig::CMD_USER_MUTE_FILTERS@),
        Shape::Valued(CliConfig::CMD_USER_KEYWORD@),
        Shape::Valued(CliConfig::CMD_USER_FILTERS@),
    ]
}

/// The keyword among the values of the keyword argument: the first of them,
/// or the empty text where the argument was not given.
pub open spec fn keyword_of(values: Seq<Seq<char>>) -> Seq<char> {
    if values.len() == 0 {
        Seq::empty()
    } else {
        values[0]
    }
}

/// The flags that `tokens` set.
///
/// A bare flag is set where the list contains it. A valued flag takes its
/// values from the first token that carries it.
pub open spec fn raw_flags(tokens: Seq<Seq<char>>) -> RawFlags {
    RawFlags {
        disallow_focus: tokens.contains(CliConfig::CMD_USER_DISALLOW_FOCUS@),
        allow_focus: tokens.contains(CliConfig::CMD_USER_ALLOW_FOCUS@),
        disallow_skip: tokens.contains(CliConfig::CMD_USER_DISALLOW_SKIP@),
        allow_skip: tokens.contains(CliConfig::CMD_USER_ALLOW_SKIP@),
        mute_keyword: tokens.contains(CliConfig::CMD_USER_MUTE_KEYWORD@),
        ignore_keywords: tokens.contains(CliConfig::CMD_USER_IGNORE_KEYWORDS@),
        mute_filters: tokens.contains(CliConfig::CMD_USER_MUTE_FILTERS@),
        run_rust_tests: tokens.contains(CliConfig::CMD_USER_RUST_TESTS@),
        run_rust_benchmarks: tokens.contains(CliConfig::CMD_USER_RUST_BENCHMARKS@),
        keyword: keyword_of(values_for(tokens, CliConfig::CMD_USER_KEYWORD@)),
        filters: values_for(tokens, CliConfig::CMD_USER_FILTERS@),
    }
}

/// The tokens that stay on the list when every recognised argument has
/// taken its first fit off it.
pub open spec fn leftover(tokens: Seq<Seq<char>>) -> Seq<Seq<char>> {
    stripped(tokens, recognised())
}

/// The message for two arguments that rule each other out.
pub open spec fn exclusive_message(first: Seq<char>, second: Seq<char>) -> Seq<char> {
    "command line arguments "@ + first + " and "@ + second + " are mutually exclusive"@
}

/// One line for each token of `rest`: four spaces, the token between double
/// quotes as it was given, a comma, and a line break.
pub open spec fn listed(rest: Seq<Seq<char>>) -> Seq<char>
    decreases rest.len(),
{
    if rest.len() == 0 {
        Seq::empty()
    } else {
        listed(rest.drop_last()) + "    \""@ + rest.last() + "\",\n"@
    }
}

/// The message for tokens that no recognised argument took: a heading and,
/// between square brackets, the tokens line by line.
pub open spec fn unrecognized_message(rest: Seq<Seq<char>>) -> Seq<char> {
    "unrecognized args provided: [\n"@ + listed(rest) + "]"@
}

/// What parsing `tokens` comes to: the raw flags, or the message of the
/// first rule that the tokens break.
///
/// The rules, in the order in which they are held against the tokens: the two
/// focus flags rule each other out, so do the two skip flags, so do muting
/// the keyword and giving one, so do muting the filters and giving some; and
/// no token may be left over.
pub open spec fn parsed(tokens: Seq<Seq<char>>) -> Result<RawFlags, Seq<char>> {
    let raw = raw_flags(tokens);
    if raw.allow_focus && raw.disallow_focus {
        Err(
            exclusive_message(
                CliConfig::CMD_USER_ALLOW_FOCUS@,
                CliConfig::CMD_USER_DISALLOW_FOCUS@,
            ),
        )
    } else if raw.allow_skip && raw.disallow_skip {
        Err(
            exclusive_message(
                CliConfig::CMD_USER_ALLOW_SKIP@,
                CliConfig::CMD_USER_DISALLOW_SKIP@,
            ),
        )
    } else if raw.mute_keyword && raw.keyword.len() > 0 {
        Err(
            exclusive_message(
                CliConfig::CMD_USER_MUTE_KEYWORD@,
                CliConfig::CMD_USER_KEYWORD@,
            ),
        )
    } else if raw.mute_filters && raw.filters.len() > 0 {
        Err(
            exclusive_message(
                CliConfig::CMD_USER_MUTE_FILTERS@,
                CliConfig::CMD_USER_FILTERS@,
            ),
        )
    } else if leftover(tokens).len() > 0 {
        Err(unrecognized_message(leftover(tokens)))
    } else {
        Ok(raw)
    }
}

/// What a token that fits the `k`-th recognised shape looks like: its third
/// character, and for a bare flag its length and its eighth character.
proof fn lemma_fit_leaves_marks(token: Seq<char>, k: int)
    requires
        0 <= k < recognised().len(),
        recognised()[k].fits(token),
    ensures
        token.len() >= 10,
        k == 0 ==> token.len() == 11 && token[2] == 'r',
        k == 1 ==> token.len() == 12 && token[2] == 'r',
        k == 2 ==> token.len() == 16 && token[2] == 'd',
        k == 3 ==> token.len() == 13 && token[2] == 'a',
        k == 4 ==> token.len() == 15 && token[2] == 'd',
        k == 5 ==> token.len() == 12 && token[2] == 'a',
        k == 6 ==> token.len() == 14 && token[2] == 'm' && token[7] == 'k',
        k == 7 ==> token.len() == 17 && token[2] == 'i',
        k == 8 ==> token.len() == 14 && token[2] == 'm' && token[7] == 'f',
        k == 9 ==> token[2] == 'k',
        k == 10 ==> token[2] == 'f',
{
    reveal_strlit("--rust-test");
    reveal_strlit("--rust-bench");
    reveal_strlit("--disallow-focus");
    reveal_strlit("--allow-focus");
    reveal_strlit("--disallow-skip");
    reveal_strlit("--allow-skip");
    reveal_strlit("--mute-keyword");
    reveal_strlit("--ignore-keywords");
    reveal_strlit("--mute-filters");
    reveal_strlit("--keyword");
    reveal_strlit("--filters");
    if k == 9 {
        let prefix = CliConfig::CMD_USER_KEYWORD@ + seq!['='];
        assert(token.subrange(0, prefix.len() as int)[2] == prefix[2]);
    } else if k == 10 {
        let prefix = CliConfig::CMD_USER_FILTERS@ + seq!['='];
        assert(token.subrange(0, prefix.len() as int)[2] == prefix[2]);
    }
}

/// Every token that fits a recognised shape has ten characters or more.
pub proof fn lemma_fit_is_long(token: Seq<char>, k: int)
    requires
        0 <= k < recognised().len(),
        recognised()[k].fits(token),
    ensures
        token.len() >= 10,
{
    lemma_fit_leaves_marks(token, k);
}

/// No token fits two of the recognised shapes.
pub proof fn lemma_recognised_apart(i: int, j: int)
    requires
        0 <= i < recognised().len(),
        0 <= j < recognised().len(),
        i != j,
    ensures
        recognised()[i].apart_from(recognised()[j]),
{
    assert forall|token: Seq<char>|
        !(#[trigger] recognised()[i].fits(token) && #[trigger] recognised()[j].fits(token)) by {
        if recognised()[i].fits(token) && recognised()[j].fits(token) {
            lemma_fit_leaves_marks(token, i);
            lemma_fit_leaves_marks(token, j);
        }
    }
}

/// What looking for the `k`-th recognised shape finds on the working list is
/// what it would find on the full list, and taking it off gives the working
/// list of the next shape.
pub proof fn lemma_scan_step(tokens: Seq<Seq<char>>, k: int)
    requires
        0 <= k < recognised().len(),
    ensures
        first_token(stripped(tokens, recognised().take(k)), recognised()[k]) == first_token(
            tokens,
            recognised()[k],
        ),
        stripped(tokens, recognised().take(k + 1)) == without_first(
            stripped(tokens, recognised().take(k)),
            recognised()[k],
        ),
        recognised()[k] matches Shape::Flag(flag) ==> stripped(
            tokens,
            recognised().take(k),
        ).contains(flag) == tokens.contains(flag),
{
    let before = recognised().take(k);
    assert forall|m: int| 0 <= m < before.len() implies (#[trigger] before[m]).apart_from(
        recognised()[k],
    ) by {
        lemma_recognised_apart(m, k);
    }
    lemma_stripping_keeps_first(tokens, before, recognised()[k]);
    assert(recognised().take(k + 1).drop_last() =~= before);
    if let Shape::Flag(flag) = recognised()[k] {
        lemma_flag_found(tokens, flag);
        lemma_flag_found(stripped(tokens, before), flag);
    }
}

impl Default for CliConfig {
    /// The record in which nothing is set.
    fn default() -> (flags: Self)
        ensures
            flags@ == RawFlags::none(),
    {
        let flags = Self {
            disallow_focus: false,
            allow_focus: false,
            disallow_skip: false,
            allow_skip: false,
            mute_keyword: false,
            ignore_keywords: false,
            mute_filters: false,
            run_rust_tests: false,
            run_rust_benchmarks: false,
            keyword: String::new(),
            filters: Vec::new(),
        };
        assert(flags@.filters =~= Seq::<Seq<char>>::empty());
        flags
    }
}

impl CliConfig {
    /// Asks for the extra tests.
    pub const CMD_USER_RUST_TESTS: &'static str = "--rust-test";

    /// Asks for the extra benchmarks.
    pub const CMD_USER_RUST_BENCHMARKS: &'static str = "--rust-bench";

    /// Disallows focus.
    pub const CMD_USER_DISALLOW_FOCUS: &'static str = "--disallow-focus";

    /// Allows focus.
    pub const CMD_USER_ALLOW_FOCUS: &'static str = "--allow-focus";

    /// Disallows skipping.
    pub const CMD_USER_DISALLOW_SKIP: &'static str = "--disallow-skip";

    /// Allows skipping.
    pub const CMD_USER_ALLOW_SKIP: &'static str = "--allow-skip";

    /// Clears the keyword.
    pub const CMD_USER_MUTE_KEYWORD: &'static str = "--mute-keyword";

    /// Leaves keywords out of account.
    pub const CMD_USER_IGNORE_KEYWORDS: &'static str = "--ignore-keywords";

    /// Clears the filters.
    pub const CMD_USER_MUTE_FILTERS: &'static str = "--mute-filters";

    /// The name of the valued flag that gives the keyword.
    pub const CMD_USER_KEYWORD: &'static str = "--keyword";

    /// The name of the valued flag that gives the filters, separated by commas.
    pub const CMD_USER_FILTERS: &'static str = "--filters";

    #[verifier::type_invariant]
    spec fn well_formed(self) -> bool {
        self@.consistent()
    }

    /// Whether the tokens disallow focus.
    pub fn disallow_focus(&self) -> (value: bool)
        ensures
            value == self@.disallow_focus,
    {
        self.disallow_focus
    }

    /// Whether the tokens allow focus.
    pub fn allow_focus(&self) -> (value: bool)
        ensures
            value == self@.allow_focus,
    {
        self.allow_focus
    }

    /// Whether the tokens disallow skipping.
    pub fn disallow_skip(&self) -> (value: bool)
        ensures
            value == self@.disallow_skip,
    {
        self.disallow_skip
    }

    /// Whether the tokens allow skipping.
    pub fn allow_skip(&self) -> (value: bool)
        ensures
            value == self@.allow_skip,
    {
        self.allow_skip
    }

    /// Whether the tokens mute the keyword.
    pub fn mute_keyword(&self) -> (value: bool)
        ensures
            value == self@.mute_keyword,
    {
        self.mute_keyword
    }

    /// Whether the tokens ask to ignore keywords.
    pub fn ignore_keywords(&self) -> (value: bool)
        ensures
            value == self@.ignore_keywords,
    {
        self.ignore_keywords
    }

    /// Whether the tokens mute the filters.
    pub fn mute_filters(&self) -> (value: bool)
        ensures
            value == self@.mute_filters,
    {
        self.mute_filters
    }

    /// Whether the tokens ask for the extra tests.
    pub fn run_rust_tests(&self) -> (value: bool)
        ensures
            value == self@.run_rust_tests,
    {
        self.run_rust_tests
    }

    /// Whether the tokens ask for the extra benchmarks.
    pub fn run_rust_benchmarks(&self) -> (value: bool)
        ensures
            value == self@.run_rust_benchmarks,
    {
        self.run_rust_benchmarks
    }

    /// The keyword that the tokens give; empty where they give none.
    pub fn keyword(&self) -> (value: &str)
        ensures
            value@ == self@.keyword,
    {
        self.keyword.as_str()
    }

    /// The filters that the tokens give; empty where they give none.
    pub fn filters(&self) -> (value: &Vec<String>)
        ensures
            value.deep_view() == self@.filters,
    {
        &self.filters
    }

    /// Reads the raw flags off the argument tokens `args`, or says which
    /// rule the tokens break.
    pub fn from_os(args: Vec<String>) -> (outcome: Result<Self, ConfigError>)
        ensures
            match parsed(args.deep_view()) {
                Ok(raw) => outcome is Ok && outcome->Ok_0@ == raw,
                Err(message) => outcome is Err && outcome->Err_0@ == message,
            },
            outcome is Ok ==> outcome->Ok_0@.consistent(),
    {
        let ghost tokens = args.deep_view();
        let mut rest = args;

        let run_rust_tests = Self::get_arg(&mut rest, Self::CMD_USER_RUST_TESTS);
        proof {
            lemma_scan_step(tokens, 0);
        }
        let run_rust_benchmarks = Self::get_arg(&mut rest, Self::CMD_USER_RUST_BENCHMARKS);
        proof {
            lemma_scan_step(tokens, 1);
        }

        let disallow_focus = Self::get_arg(&mut rest, Self::CMD_USER_DISALLOW_FOCUS);
        proof {
            lemma_scan_step(tokens, 2);
        }
        let allow_focus = Self::get_arg(&mut rest, Self::CMD_USER_ALLOW_FOCUS);
        proof {
            lemma_scan_step(tokens, 3);
        }

        Self::check_mutually_exclusive_args(
            allow_focus,
            disallow_focus,
            Self::CMD_USER_ALLOW_FOCUS,
            Self::CMD_USER_DISALLOW_FOCUS,
        )?;

        let disallow_skip = Self::get_arg(&mut rest, Self::CMD_USER_DISALLOW_SKIP);
        proof {
            lemma_scan_step(tokens, 4);
        }
        let allow_skip = Self::get_arg(&mut rest, Self::CMD_USER_ALLOW_SKIP);
        proof {
            lemma_scan_step(tokens, 5);
        }

        Self::check_mutually_exclusive_args(
            allow_skip,
            disallow_skip,
            Self::CMD_USER_ALLOW_SKIP,
            Self::CMD_USER_DISALLOW_SKIP,
        )?;

        let mute_keyword = Self::get_arg(&mut rest, Self::CMD_USER_MUTE_KEYWORD);
        proof {
            lemma_scan_step(tokens, 6);
        }
        let ignore_keywords = Self::get_arg(&mut rest, Self::CMD_USER_IGNORE_KEYWORDS);
        proof {
            lemma_scan_step(tokens, 7);
        }
        let mute_filters = Self::get_arg(&mut rest, Self::CMD_USER_MUTE_FILTERS);
        proof {
            lemma_scan_step(tokens, 8);
        }

        let keyword_arg = Self::get_arg_with_value(&mut rest, Self::CMD_USER_KEYWORD);
        proof {
            lemma_scan_step(tokens, 9);
        }
        let keyword = if keyword_arg.is_empty() {
            String::new()
        } else {
            keyword_arg[0].clone()
        };

        Self::check_mutually_exclusive_args(
            mute_keyword,
            !keyword.as_str().is_empty(),
            Self::CMD_USER_MUTE_KEYWORD,
            Self::CMD_USER_KEYWORD,
        )?;

        let filters = Self::get_arg_with_value(&mut rest, Self::CMD_USER_FILTERS);
        proof {
            lemma_scan_step(tokens, 10);
        }

        Self::check_mutually_exclusive_args(
            mute_filters,
            !filters.is_empty(),
            Self::CMD_USER_MUTE_FILTERS,
            Self::CMD_USER_FILTERS,
        )?;

        Self::check_unrecognized_args(&rest)?;

        Ok(
            Self {
                disallow_focus,
                allow_focus,
                disallow_skip,
                allow_skip,
                mute_keyword,
                ignore_keywords,
                mute_filters,
                run_rust_tests,
                run_rust_benchmarks,
                keyword,
                filters,
            },
        )
    }

    /// Fails where `unrecognized_args` holds a token, with a message that
    /// lists the tokens.
    pub fn check_unrecognized_args(unrecognized_args: &Vec<String>) -> (outcome: Result<
        (),
        ConfigError,
    >)
        ensures
            outcome is Ok <==> unrecognized_args.len() == 0,
            outcome is Err ==> outcome->Err_0@ == unrecognized_message(
                unrecognized_args.deep_view(),
            ),
    {
        if unrecognized_args.is_empty() {
            return Ok(());
        }
        let ghost rest = unrecognized_args.deep_view();
        let ghost heading = "unrecognized args provided: [\n"@;
        let mut message = "unrecognized args provided: [\n".to_owned();
        let mut i: usize = 0;
        while i < unrecognized_args.len()
            invariant
                0 <= i <= unrecognized_args.len(),
                rest == unrecognized_args.deep_view(),
                heading == "unrecognized args provided: [\n"@,
                message@ == heading + listed(rest.take(i as int)),
            decreases unrecognized_args.len() - i,
        {
            message.append("    \"");
            message.append(unrecognized_args[i].as_str());
            message.append("\",\n");
            assert(rest.take(i + 1).drop_last() =~= rest.take(i as int));
            i += 1;
        }
        message.append("]");
        assert(rest.take(i as int) =~= rest);
        Err(ConfigError::new(message))
    }

    /// Fails where both values are set, with a message that names both
    /// arguments.
    pub fn check_mutually_exclusive_args(
        arg_1_val: bool,
        arg_2_val: bool,
        arg_1: &str,
        arg_2: &str,
    ) -> (outcome: Result<(), ConfigError>)
        ensures
            outcome is Err <==> arg_1_val && arg_2_val,
            outcome is Err ==> outcome->Err_0@ == exclusive_message(arg_1@, arg_2@),
    {
        if arg_1_val && arg_2_val {
            let mut message = "command line arguments ".to_owned();
            message.append(arg_1);
            message.append(" and ");
            message.append(arg_2);
            message.append(" are mutually exclusive");
            Err(ConfigError::new(message))
        } else {
            Ok(())
        }
    }

    /// Looks for the bare flag `flag` and takes its first occurrence off
    /// `args`. Says whether it was there.
    pub fn get_arg(args: &mut Vec<String>, flag: &str) -> (gotten: bool)
        ensures
            gotten == old(args).deep_view().contains(flag@),
            final(args).deep_view() == without_first(old(args).deep_view(), Shape::Flag(flag@)),
    {
        let wanted = flag.to_owned();
        let ghost tokens = args.deep_view();
        let ghost shape = Shape::Flag(flag@);
        let mut i: usize = 0;
        while i < args.len()
            invariant
                0 <= i <= args.len(),
                args.deep_view() == tokens,
                old(args).deep_view() == tokens,
                wanted@ == flag@,
                shape == Shape::Flag(flag@),
                forall|earlier: int| 0 <= earlier < i ==> !shape.fits(#[trigger] tokens[earlier]),
            decreases args.len() - i,
        {
            if args[i] == wanted {
                proof {
                    lemma_first_fit_is(tokens, shape, i as int);
                }
                args.remove(i);
                return true;
            }
            i += 1;
        }
        proof {
            lemma_no_fit(tokens, shape);
            lemma_flag_found(tokens, flag@);
        }
        false
    }

    /// Looks for the valued flag `name`, takes the first token that carries
    /// it off `args`, and hands out the values of that token.
    pub fn get_arg_with_value(args: &mut Vec<String>, name: &str) -> (values: Vec<String>)
        ensures
            values.deep_view() == values_for(old(args).deep_view(), name@),
            final(args).deep_view() == without_first(old(args).deep_view(), Shape::Valued(name@)),
    {
        let mut prefix = name.to_owned();
        prefix.append("=");
        proof {
            reveal_strlit("=");
        }
        let skipped = prefix.as_str().unicode_len();
        let ghost tokens = args.deep_view();
        let ghost shape = Shape::Valued(name@);
        let mut i: usize = 0;
        while i < args.len()
            invariant
                0 <= i <= args.len(),
                args.deep_view() == tokens,
                old(args).deep_view() == tokens,
                prefix@ == name@ + seq!['='],
                skipped == name@.len() + 1,
                shape == Shape::Valued(name@),
                forall|earlier: int| 0 <= earlier < i ==> !shape.fits(#[trigger] tokens[earlier]),
            decreases args.len() - i,
        {
            if starts_with(args[i].as_str(), prefix.as_str()) {
                proof {
                    lemma_first_fit_is(tokens, shape, i as int);
                }
                let token = args.remove(i);
                let total = token.as_str().unicode_len();
                let value = token.as_str().substring_char(skipped, total);
                return split(value, ',');
            }
            i += 1;
        }
        proof {
            lemma_no_fit(tokens, shape);
        }
        Vec::new()
    }
}

} // verus!
