//! The configuration that a run goes by: the host's defaults, with the raw
//! flags laid over them where the run is headless.

use crate::cli::{parsed, CliConfig, RawFlags};
use crate::error::ConfigError;
use crate::text::{center, centered, join, joined};
use vstd::prelude::*;
use vstd::string::*;

verus! {

/// The width, in characters, of the lines in which the summary centres its
/// text.
pub const LINE_WIDTH: usize = 80;

/// The configuration that a run goes by. It is made once and read from then
/// on.
pub struct RunnerConfig {
    disallow_focus: bool,
    disallow_skip: bool,
    run_rust_tests: bool,
    run_rust_benchmarks: bool,
    keyword: String,
    ignore_keywords: bool,
    filters: Vec<String>,
}

/// A [`RunnerConfig`] as plain values.
pub struct Settings {
    pub disallow_focus: bool,
    pub disallow_skip: bool,
    pub run_rust_tests: bool,
    pub run_rust_benchmarks: bool,
    /// The keyword that tests are chosen by; empty where there is none.
    pub keyword: Seq<char>,
    pub ignore_keywords: bool,
    /// The filters that tests are chosen by; empty where there are none.
    pub filters: Seq<Seq<char>>,
}

impl Settings {
    /// The settings in which nothing is set.
    pub open spec fn none() -> Settings {
        Settings {
            disallow_focus: false,
            disallow_skip: false,
            run_rust_tests: false,
            run_rust_benchmarks: false,
            keyword: Seq::empty(),
            ignore_keywords: false,
            filters: Seq::empty(),
        }
    }
}

impl View for RunnerConfig {
    type V = Settings;

    closed spec fn view(&self) -> Settings {
        Settings {
            disallow_focus: self.disallow_focus,
            disallow_skip: self.disallow_skip,
            run_rust_tests: self.run_rust_tests,
            run_rust_benchmarks: self.run_rust_benchmarks,
            keyword: self.keyword@,
            ignore_keywords: self.ignore_keywords,
            filters: self.filters.deep_view(),
        }
    }
}

/// `defaults` with the raw flags laid over them.
///
/// The two extra modes are taken over together or not at all: where the raw
/// flags ask for either of them, both fields become what the raw flags say,
/// and where they ask for neither, both defaults stay. Of a pair of flags
/// that allow and disallow, the one that disallows has the last word. Filters
/// and a keyword that were given replace what was there, and muting without
/// giving any clears it. Keywords, once ignored, stay ignored.
pub open spec fn merged(defaults: Settings, raw: RawFlags) -> Settings {
    let extra = raw.run_rust_tests || raw.run_rust_benchmarks;
    Settings {
        run_rust_tests: if extra {
            raw.run_rust_tests
        } else {
            defaults.run_rust_tests
        },
        run_rust_benchmarks: if extra {
            raw.run_rust_benchmarks
        } else {
            defaults.run_rust_benchmarks
        },
        disallow_focus: if raw.disallow_focus {
            true
        } else if raw.allow_focus {
            false
        } else {
            defaults.disallow_focus
        },
        disallow_skip: if raw.disallow_skip {
            true
        } else if raw.allow_skip {
            false
        } else {
            defaults.disallow_skip
        },
        filters: if raw.filters.len() > 0 {
            raw.filters
        } else if raw.mute_filters {
            Seq::empty()
        } else {
            defaults.filters
        },
        keyword: if raw.keyword.len() > 0 {
            raw.keyword
        } else if raw.mute_keyword {
            Seq::empty()
        } else {
            defaults.keyword
        },
        ignore_keywords: raw.ignore_keywords || defaults.ignore_keywords,
    }
}

/// The settings of a run: the defaults as they are where the run is not
/// headless, whatever the tokens say; else the defaults with the flags of
/// `tokens` laid over them, or the message of the rule that the tokens break.
pub open spec fn effective(defaults: Settings, headless: bool, tokens: Seq<Seq<char>>) -> Result<
    Settings,
    Seq<char>,
> {
    if !headless {
        Ok(defaults)
    } else {
        match parsed(tokens) {
            Ok(raw) => Ok(merged(defaults, raw)),
            Err(message) => Err(message),
        }
    }
}

/// The first line of the summary, before it is centred.
pub open spec fn banner(headless: bool) -> Seq<char> {
    if headless {
        "Began run in HEADLESS mode"@
    } else {
        "Began run in EDITOR mode"@
    }
}

/// What the summary remarks on: a keyword that is in use, then focus being
/// disallowed, then skipping being disallowed.
pub open spec fn remarks(settings: Settings) -> Seq<Seq<char>> {
    let keyword: Seq<Seq<char>> = if settings.keyword.len() > 0 {
        seq!["using KEYWORD: '"@ + settings.keyword + "'"@]
    } else {
        Seq::empty()
    };
    let focus: Seq<Seq<char>> = if settings.disallow_focus {
        seq!["disallowing focused"@]
    } else {
        Seq::empty()
    };
    let skip: Seq<Seq<char>> = if settings.disallow_skip {
        seq!["disallowing skipping"@]
    } else {
        Seq::empty()
    };
    keyword + focus + skip
}

/// The messages of the summary, in the order in which they go out.
///
/// First the centred banner. Then, if there is anything to remark on, the
/// remarks joined by `" & "` and centred. Then, if there are filters, a
/// heading with one bullet for each filter. Every message ends in a line
/// break.
pub open spec fn summary(settings: Settings, headless: bool) -> Seq<Seq<char>> {
    let first: Seq<Seq<char>> = seq![centered(banner(headless), LINE_WIDTH as nat) + "\n"@];
    let second: Seq<Seq<char>> = if remarks(settings).len() > 0 {
        seq![centered(joined(remarks(settings), " & "@), LINE_WIDTH as nat) + "\n"@]
    } else {
        Seq::empty()
    };
    let third: Seq<Seq<char>> = if settings.filters.len() > 0 {
        seq!["   Using filters:\n   * "@ + joined(settings.filters, "\n   * "@) + "\n"@]
    } else {
        Seq::empty()
    };
    first + second + third
}

/// A copy of every string of `list`.
fn copied(list: &Vec<String>) -> (copy: Vec<String>)
    ensures
        copy.deep_view() == list.deep_view(),
{
    let mut copy: Vec<String> = Vec::new();
    let mut i: usize = 0;
    while i < list.len()
        invariant
            0 <= i <= list.len(),
            copy.deep_view() =~= list.deep_view().take(i as int),
        decreases list.len() - i,
    {
        let ghost before = copy.deep_view();
        let item = list[i].clone();
        copy.push(item);
        assert(copy.deep_view() =~= before.push(list[i as int]@));
        i += 1;
    }
    copy
}

impl Default for RunnerConfig {
    /// The configuration in which nothing is set.
    fn default() -> (config: Self)
        ensures
            config@ == Settings::none(),
    {
        let config = Self {
            disallow_focus: false,
            disallow_skip: false,
            run_rust_tests: false,
            run_rust_benchmarks: false,
            keyword: String::new(),
            ignore_keywords: false,
            filters: Vec::new(),
        };
        assert(config@.filters =~= Seq::<Seq<char>>::empty());
        config
    }
}

impl RunnerConfig {
    /// Whether focusing on single tests is disallowed.
    pub fn disallow_focus(&self) -> (value: bool)
        ensures
            value == self@.disallow_focus,
    {
        self.disallow_focus
    }

    /// Whether skipping tests is disallowed.
    pub fn disallow_skip(&self) -> (value: bool)
        ensures
            value == self@.disallow_skip,
    {
        self.disallow_skip
    }

    /// The keyword that tests are chosen by; empty where there is none.
    pub fn keyword(&self) -> (value: &str)
        ensures
            value@ == self@.keyword,
    {
        self.keyword.as_str()
    }

    /// Whether keywords are left out of account.
    pub fn ignore_keywords(&self) -> (value: bool)
        ensures
            value == self@.ignore_keywords,
    {
        self.ignore_keywords
    }

    /// The filters that tests are chosen by, in the order given.
    pub fn filters(&self) -> (value: &Vec<String>)
        ensures
            value.deep_view() == self@.filters,
    {
        &self.filters
    }

    /// Whether the extra tests are run.
    pub fn run_rust_tests(&self) -> (value: bool)
        ensures
            value == self@.run_rust_tests,
    {
        self.run_rust_tests
    }

    /// Whether the extra benchmarks are run.
    pub fn run_rust_benchmarks(&self) -> (value: bool)
        ensures
            value == self@.run_rust_benchmarks,
    {
        self.run_rust_benchmarks
    }

    /// The configuration of a run whose defaults are the first seven
    /// arguments.
    ///
    /// Where the run is not `headless` the defaults are the configuration and
    /// `args` is not looked at. Where it is, the flags of the argument tokens
    /// `args` are laid over the defaults, and tokens that break a rule fail
    /// the whole step.
    pub fn new(
        disallow_focus: bool,
        disallow_skip: bool,
        run_rust_tests: bool,
        run_rust_benchmarks: bool,
        keyword: &str,
        ignore_keywords: bool,
        filters: &Vec<String>,
        headless: bool,
        args: Vec<String>,
    ) -> (outcome: Result<Self, ConfigError>)
        ensures
            match effective(
                (Settings {
                    disallow_focus,
                    disallow_skip,
                    run_rust_tests,
                    run_rust_benchmarks,
                    keyword: keyword@,
                    ignore_keywords,
                    filters: filters.deep_view(),
                }),
                headless,
                args.deep_view(),
            ) {
                Ok(settings) => outcome is Ok && outcome->Ok_0@ == settings,
                Err(message) => outcome is Err && outcome->Err_0@ == message,
            },
            !headless ==> outcome is Ok && outcome->Ok_0@ == (Settings {
                disallow_focus,
                disallow_skip,
                run_rust_tests,
                run_rust_benchmarks,
                keyword: keyword@,
                ignore_keywords,
                filters: filters.deep_view(),
            }),
    {
        let mut instance = Self {
            disallow_focus,
            disallow_skip,
            run_rust_tests,
            run_rust_benchmarks,
            ignore_keywords,
            keyword: keyword.to_owned(),
            filters: copied(filters),
        };

        if !headless {
            return Ok(instance);
        }

        let cmdline = CliConfig::from_os(args)?;

        if cmdline.run_rust_tests() || cmdline.run_rust_benchmarks() {
            instance.run_rust_tests = cmdline.run_rust_tests();
            instance.run_rust_benchmarks = cmdline.run_rust_benchmarks();
        }
        if cmdline.allow_focus() {
            instance.disallow_focus = false;
        }
        if cmdline.disallow_focus() {
            instance.disallow_focus = true;
        }
        if cmdline.allow_skip() {
            instance.disallow_skip = false;
        }
        if cmdline.disallow_skip() {
            instance.disallow_skip = true;
        }
        if cmdline.mute_filters() {
            instance.filters = Vec::new();
            assert(instance.filters.deep_view() =~= Seq::<Seq<char>>::empty());
        }
        if !cmdline.filters().is_empty() {
            instance.filters = copied(cmdline.filters());
        }
        if cmdline.mute_keyword() {
            instance.keyword = String::new();
        }
        if cmdline.ignore_keywords() {
            instance.ignore_keywords = true;
        }
        if !cmdline.keyword().is_empty() {
            instance.keyword = cmdline.keyword().to_owned();
        }

        Ok(instance)
    }

    /// The summary of this configuration, as the messages to hand to the
    /// message printer one after the other.
    pub fn print_info(&self, headless: bool) -> (messages: Vec<String>)
        ensures
            messages.deep_view() == summary(self@, headless),
    {
        let mut messages: Vec<String> = Vec::new();

        let mut first = if headless {
            center("Began run in HEADLESS mode", LINE_WIDTH)
        } else {
            center("Began run in EDITOR mode", LINE_WIDTH)
        };
        first.append("\n");
        messages.push(first);

        let mut additional_message: Vec<String> = Vec::new();
        if !self.keyword().is_empty() {
            let mut remark = "using KEYWORD: '".to_owned();
            remark.append(self.keyword());
            remark.append("'");
            additional_message.push(remark);
        }
        if self.disallow_focus() {
            additional_message.push("disallowing focused".to_owned());
        }
        if self.disallow_skip() {
            additional_message.push("disallowing skipping".to_owned());
        }
        assert(additional_message.deep_view() =~= remarks(self@));

        if !additional_message.is_empty() {
            let mut second = center(join(&additional_message, " & ").as_str(), LINE_WIDTH);
            second.append("\n");
            messages.push(second);
        }

        if !self.filters().is_empty() {
            let mut third = "   Using filters:\n   * ".to_owned();
            third.append(join(self.filters(), "\n   * ").as_str());
            third.append("\n");
            messages.push(third);
        }
        messages
    }
}

} // verus!
