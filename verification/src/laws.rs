//! What holds of parsing and merging for every list of tokens.

use crate::cli::{
    exclusive_message, leftover, lemma_fit_is_long, lemma_recognised_apart, lemma_scan_step,
    listed, parsed, raw_flags, recognised, unrecognized_message, CliConfig, RawFlags,
};
use crate::runner::{effective, merged, Settings};
use crate::scan::{
    first_token, lemma_first_fit_exists, lemma_first_fit_is, lemma_no_fit,
    lemma_stripping_leaves_stranger, lemma_taken_or_left, stripped, Shape,
};
use crate::text::{
    lemma_first_piece, lemma_occurs_in_longer, lemma_occurs_within, lemma_pieces_unique,
    occurs_in, pieces,
};
use vstd::prelude::*;

verus! {

/// Whether `token` is spelled like one of the recognised arguments.
pub open spec fn is_recognised(token: Seq<char>) -> bool {
    exists|k: int| 0 <= k < recognised().len() && (#[trigger] recognised()[k]).fits(token)
}

/// Tokens that both allow and disallow focus fail to parse, whatever else
/// they hold and in whatever order, and the message names both flags.
pub proof fn lemma_focus_flags_exclude(tokens: Seq<Seq<char>>)
    requires
        tokens.contains(CliConfig::CMD_USER_ALLOW_FOCUS@),
        tokens.contains(CliConfig::CMD_USER_DISALLOW_FOCUS@),
    ensures
        parsed(tokens) == Err::<RawFlags, Seq<char>>(
            exclusive_message(
                CliConfig::CMD_USER_ALLOW_FOCUS@,
                CliConfig::CMD_USER_DISALLOW_FOCUS@,
            ),
        ),
        occurs_in(CliConfig::CMD_USER_ALLOW_FOCUS@, parsed(tokens)->Err_0),
        occurs_in(CliConfig::CMD_USER_DISALLOW_FOCUS@, parsed(tokens)->Err_0),
{
    let allow = CliConfig::CMD_USER_ALLOW_FOCUS@;
    let disallow = CliConfig::CMD_USER_DISALLOW_FOCUS@;
    let message = exclusive_message(allow, disallow);
    let tail = " and "@ + disallow + " are mutually exclusive"@;
    lemma_occurs_within("command line arguments "@, allow, tail);
    assert("command line arguments "@ + allow + tail =~= message);
    lemma_occurs_within(
        "command line arguments "@ + allow + " and "@,
        disallow,
        " are mutually exclusive"@,
    );
}

/// Tokens that mute the keyword and also give one fail to parse.
///
/// The keyword that a token gives is what stands between its `=` and the
/// first comma after it, so a value that begins with a comma gives none.
pub proof fn lemma_muted_keyword_excludes_keyword(tokens: Seq<Seq<char>>, value: Seq<char>)
    requires
        tokens.contains(CliConfig::CMD_USER_MUTE_KEYWORD@),
        tokens.contains(CliConfig::CMD_USER_KEYWORD@ + seq!['='] + value),
        value.len() > 0,
        value[0] != ',',
    ensures
        parsed(tokens) is Err,
{
    let name = CliConfig::CMD_USER_KEYWORD@;
    let token = name + seq!['='] + value;
    let shape = Shape::Valued(name);
    assert(shape.fits(token));
    let at = choose|at: int| 0 <= at < tokens.len() && tokens[at] == token;
    lemma_first_fit_exists(tokens, shape, at);
    let found = first_token(tokens, shape)->0;
    if found == token {
        assert(token.skip(name.len() + 1int) =~= value);
        lemma_first_piece(value, ',');
    } else {
        let before = recognised().take(9);
        assert forall|k: int| 0 <= k < before.len() implies !(#[trigger] before[k]).fits(
            token,
        ) by {
            lemma_recognised_apart(k, 9);
        }
        lemma_stripping_leaves_stranger(tokens, before, token);
        lemma_scan_step(tokens, 9);
        lemma_taken_or_left(stripped(tokens, before), shape, token);
        lemma_scan_step(tokens, 10);
        lemma_taken_or_left(stripped(tokens, recognised().take(10)), recognised()[10], token);
        lemma_recognised_apart(10, 9);
    }
}

/// Every token of `rest` occurs in the lines that list `rest`.
proof fn lemma_listed_names_each(rest: Seq<Seq<char>>, at: int)
    requires
        0 <= at < rest.len(),
    ensures
        occurs_in(rest[at], listed(rest)),
    decreases rest.len(),
{
    let open = "    \""@;
    let close = "\",\n"@;
    let earlier = listed(rest.drop_last());
    if at == rest.len() - 1 {
        lemma_occurs_within(earlier + open, rest[at], close);
    } else {
        lemma_listed_names_each(rest.drop_last(), at);
        lemma_occurs_in_longer(rest[at], Seq::empty(), earlier, open + rest.last() + close);
        assert(Seq::<char>::empty() + earlier + (open + rest.last() + close) =~= listed(rest));
    }
}

/// Every token of `rest` occurs in the message that lists `rest`.
pub proof fn lemma_message_lists_each(rest: Seq<Seq<char>>, at: int)
    requires
        0 <= at < rest.len(),
    ensures
        occurs_in(rest[at], unrecognized_message(rest)),
{
    lemma_listed_names_each(rest, at);
    lemma_occurs_in_longer(rest[at], "unrecognized args provided: [\n"@, listed(rest), "]"@);
}

/// Tokens that hold one that is not recognised fail to parse. Where they
/// break none of the rules on flags that rule each other out, the message
/// holds that token.
pub proof fn lemma_stranger_is_reported(tokens: Seq<Seq<char>>, token: Seq<char>)
    requires
        tokens.contains(token),
        !is_recognised(token),
    ensures
        parsed(tokens) is Err,
        leftover(tokens).contains(token),
        raw_flags(tokens).consistent() ==> parsed(tokens) == Err::<RawFlags, Seq<char>>(
            unrecognized_message(leftover(tokens)),
        ) && occurs_in(token, parsed(tokens)->Err_0),
{
    assert forall|k: int| 0 <= k < recognised().len() implies !(#[trigger] recognised()[k]).fits(
        token,
    ) by {}
    lemma_stripping_leaves_stranger(tokens, recognised(), token);
    let rest = leftover(tokens);
    let at = choose|at: int| 0 <= at < rest.len() && rest[at] == token;
    lemma_message_lists_each(rest, at);
}

/// A token of fewer than ten characters is not recognised.
pub proof fn lemma_short_token_is_stranger(token: Seq<char>)
    requires
        token.len() < 10,
    ensures
        !is_recognised(token),
{
    assert forall|k: int| 0 <= k < recognised().len() implies !(#[trigger] recognised()[k]).fits(
        token,
    ) by {
        if recognised()[k].fits(token) {
            lemma_fit_is_long(token, k);
        }
    }
}

/// Looking for shapes that fit none of the tokens leaves the list as it is.
pub proof fn lemma_stripping_strangers(tokens: Seq<Seq<char>>, shapes: Seq<Shape>)
    requires
        forall|k: int, at: int|
            0 <= k < shapes.len() && 0 <= at < tokens.len() ==> !(#[trigger] shapes[k]).fits(
                #[trigger] tokens[at],
            ),
    ensures
        stripped(tokens, shapes) == tokens,
    decreases shapes.len(),
{
    if shapes.len() > 0 {
        lemma_stripping_strangers(tokens, shapes.drop_last());
        lemma_no_fit(tokens, shapes.last());
    }
}

/// A filters token alone parses, and sets nothing but the filters: the
/// pieces of its value between the commas, in order. A value without a comma
/// is a single filter, and so is the empty value.
pub proof fn lemma_filters_alone(value: Seq<char>)
    ensures
        parsed(seq![CliConfig::CMD_USER_FILTERS@ + seq!['='] + value]) == Ok::<
            RawFlags,
            Seq<char>,
        >(RawFlags { filters: pieces(value, ','), ..RawFlags::none() }),
        !value.contains(',') ==> pieces(value, ',') == seq![value],
{
    let name = CliConfig::CMD_USER_FILTERS@;
    let token = name + seq!['='] + value;
    let tokens = seq![token];
    let shape = Shape::Valued(name);
    assert(shape.fits(token));
    assert(token.skip(name.len() + 1int) =~= value);
    assert forall|k: int| 0 <= k < 10 implies !(#[trigger] recognised()[k]).fits(token) by {
        lemma_recognised_apart(k, 10);
    }
    lemma_no_fit(tokens, Shape::Valued(CliConfig::CMD_USER_KEYWORD@));
    lemma_first_fit_is(tokens, shape, 0);
    lemma_stripping_strangers(tokens, recognised().take(10));

    if !value.contains(',') {
        lemma_pieces_unique(seq![value], value, ',');
    }
}

/// A run that is not headless goes by its defaults, whatever the tokens.
pub proof fn lemma_interactive_run_keeps_defaults(defaults: Settings, tokens: Seq<Seq<char>>)
    ensures
        effective(defaults, false, tokens) == Ok::<Settings, Seq<char>>(defaults),
{
}

/// Nothing can be taken off an empty list.
pub proof fn lemma_nothing_to_strip(shapes: Seq<Shape>)
    ensures
        stripped(Seq::empty(), shapes) == Seq::<Seq<char>>::empty(),
    decreases shapes.len(),
{
    if shapes.len() > 0 {
        lemma_nothing_to_strip(shapes.drop_last());
        lemma_no_fit(Seq::empty(), shapes.last());
    }
}

/// A headless run without tokens goes by its defaults.
pub proof fn lemma_no_tokens_keep_defaults(defaults: Settings)
    ensures
        effective(defaults, true, Seq::empty()) == Ok::<Settings, Seq<char>>(defaults),
{
    let tokens = Seq::<Seq<char>>::empty();
    lemma_nothing_to_strip(recognised());
    lemma_no_fit(tokens, Shape::Valued(CliConfig::CMD_USER_KEYWORD@));
    lemma_no_fit(tokens, Shape::Valued(CliConfig::CMD_USER_FILTERS@));
    let raw = raw_flags(tokens);
}

/// The two extra modes are taken over together: where the raw flags ask for
/// either, both fields are what the raw flags say; where they ask for
/// neither, both defaults stay.
pub proof fn lemma_extra_modes_go_together(defaults: Settings, raw: RawFlags)
    ensures
        raw.run_rust_tests || raw.run_rust_benchmarks ==> merged(defaults, raw).run_rust_tests
            == raw.run_rust_tests && merged(defaults, raw).run_rust_benchmarks
            == raw.run_rust_benchmarks,
        !raw.run_rust_tests && !raw.run_rust_benchmarks ==> merged(defaults, raw).run_rust_tests
            == defaults.run_rust_tests && merged(defaults, raw).run_rust_benchmarks
            == defaults.run_rust_benchmarks,
{
}

/// Tokens that parse give flags of which no two rule each other out, and
/// leave no token over.
pub proof fn lemma_parsed_flags_are_consistent(tokens: Seq<Seq<char>>)
    requires
        parsed(tokens) is Ok,
    ensures
        parsed(tokens)->Ok_0 == raw_flags(tokens),
        raw_flags(tokens).consistent(),
        leftover(tokens).len() == 0,
{
}

} // verus!
