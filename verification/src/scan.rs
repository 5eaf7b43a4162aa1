//! Looking for the first token of a given shape in a list of tokens, and
//! what taking it out leaves behind.

use crate::text::pieces;
use vstd::prelude::*;

verus! {

/// How a recognised argument is spelled.
pub enum Shape {
    /// A bare flag: the token is the name and nothing else.
    Flag(Seq<char>),
    /// A flag with a value: the token is the name, then `=`, then the value.
    Valued(Seq<char>),
}

impl Shape {
    /// Whether `token` is spelled this way.
    pub open spec fn fits(self, token: Seq<char>) -> bool {
        match self {
            Shape::Flag(name) => token == name,
            Shape::Valued(name) => (name + seq!['=']).is_prefix_of(token),
        }
    }

    /// Whether no token fits both this shape and `other`.
    pub open spec fn apart_from(self, other: Shape) -> bool {
        forall|token: Seq<char>| !(#[trigger] self.fits(token) && #[trigger] other.fits(token))
    }
}

/// Whether the token at `at` fits `shape` and no token before it does.
pub open spec fn is_first_fit(tokens: Seq<Seq<char>>, shape: Shape, at: int) -> bool {
    &&& 0 <= at < tokens.len()
    &&& shape.fits(tokens[at])
    &&& forall|earlier: int| 0 <= earlier < at ==> !shape.fits(#[trigger] tokens[earlier])
}

/// Where the first token that fits `shape` stands, if there is one.
pub open spec fn first_fit(tokens: Seq<Seq<char>>, shape: Shape) -> Option<int> {
    if exists|at: int| is_first_fit(tokens, shape, at) {
        Some(choose|at: int| is_first_fit(tokens, shape, at))
    } else {
        None
    }
}

/// The first token that fits `shape`, if there is one.
pub open spec fn first_token(tokens: Seq<Seq<char>>, shape: Shape) -> Option<Seq<char>> {
    match first_fit(tokens, shape) {
        Some(at) => Some(tokens[at]),
        None => None,
    }
}

/// `tokens` with the first token that fits `shape` taken out.
pub open spec fn without_first(tokens: Seq<Seq<char>>, shape: Shape) -> Seq<Seq<char>> {
    match first_fit(tokens, shape) {
        Some(at) => tokens.remove(at),
        None => tokens,
    }
}

/// `tokens` after the shapes of `shapes` were looked for one after the other,
/// each taking its first fit off the list that the one before it left.
pub open spec fn stripped(tokens: Seq<Seq<char>>, shapes: Seq<Shape>) -> Seq<Seq<char>>
    decreases shapes.len(),
{
    if shapes.len() == 0 {
        tokens
    } else {
        without_first(stripped(tokens, shapes.drop_last()), shapes.last())
    }
}

/// The values that the first token for the valued flag `name` carries: what
/// follows its `=`, cut at every comma. Empty where no token fits.
pub open spec fn values_for(tokens: Seq<Seq<char>>, name: Seq<char>) -> Seq<Seq<char>> {
    match first_token(tokens, Shape::Valued(name)) {
        Some(token) => pieces(token.skip(name.len() + 1int), ','),
        None => Seq::empty(),
    }
}

/// A first fit is the only one.
pub proof fn lemma_first_fit_is(tokens: Seq<Seq<char>>, shape: Shape, at: int)
    requires
        is_first_fit(tokens, shape, at),
    ensures
        first_fit(tokens, shape) == Some(at),
{
}

/// A list with a token that fits has a first one, at or before it.
pub proof fn lemma_first_fit_exists(tokens: Seq<Seq<char>>, shape: Shape, at: int)
    requires
        0 <= at < tokens.len(),
        shape.fits(tokens[at]),
    ensures
        first_fit(tokens, shape) is Some,
        0 <= first_fit(tokens, shape)->0 <= at,
        is_first_fit(tokens, shape, first_fit(tokens, shape)->0),
    decreases at,
{
    if exists|earlier: int| 0 <= earlier < at && shape.fits(#[trigger] tokens[earlier]) {
        let earlier = choose|earlier: int|
            0 <= earlier < at && shape.fits(#[trigger] tokens[earlier]);
        lemma_first_fit_exists(tokens, shape, earlier);
    } else {
        lemma_first_fit_is(tokens, shape, at);
    }
}

/// A list in which no token fits has no first fit.
pub proof fn lemma_no_fit(tokens: Seq<Seq<char>>, shape: Shape)
    requires
        forall|at: int| 0 <= at < tokens.len() ==> !shape.fits(#[trigger] tokens[at]),
    ensures
        first_fit(tokens, shape) is None,
{
}

/// A bare flag is found exactly where the list contains it.
pub proof fn lemma_flag_found(tokens: Seq<Seq<char>>, flag: Seq<char>)
    ensures
        tokens.contains(flag) <==> first_token(tokens, Shape::Flag(flag)) is Some,
{
    let shape = Shape::Flag(flag);
    if tokens.contains(flag) {
        let at = choose|at: int| 0 <= at < tokens.len() && tokens[at] == flag;
        lemma_first_fit_exists(tokens, shape, at);
    }
}

/// Taking out the first fit of one shape takes that token or leaves it in
/// the list.
pub proof fn lemma_taken_or_left(tokens: Seq<Seq<char>>, shape: Shape, token: Seq<char>)
    requires
        tokens.contains(token),
    ensures
        first_token(tokens, shape) == Some(token) || without_first(tokens, shape).contains(token),
{
    let at = choose|at: int| 0 <= at < tokens.len() && tokens[at] == token;
    match first_fit(tokens, shape) {
        Some(gone) => {
            let rest = tokens.remove(gone);
            if at < gone {
                assert(rest[at] == token);
            } else if gone < at {
                assert(rest[at - 1] == token);
            }
        },
        None => {},
    }
}

/// Taking out the first fit of one shape does not change which token is the
/// first to fit a shape that is apart from it.
pub proof fn lemma_removal_keeps_first(tokens: Seq<Seq<char>>, gone: Shape, kept: Shape)
    requires
        gone.apart_from(kept),
    ensures
        first_token(without_first(tokens, gone), kept) == first_token(tokens, kept),
{
    if let Some(out) = first_fit(tokens, gone) {
        let rest = tokens.remove(out);
        match first_fit(tokens, kept) {
            Some(at) => {
                if at < out {
                    lemma_first_fit_is(rest, kept, at);
                } else {
                    lemma_first_fit_is(rest, kept, at - 1);
                }
            },
            None => {
                assert forall|i: int| 0 <= i < rest.len() implies !kept.fits(
                    #[trigger] rest[i],
                ) by {
                    let from = if i < out {
                        i
                    } else {
                        i + 1
                    };
                    if kept.fits(tokens[from]) {
                        lemma_first_fit_exists(tokens, kept, from);
                    }
                }
                lemma_no_fit(rest, kept);
            },
        }
    }
}

/// Looking for shapes that are all apart from `kept` does not change which
/// token is the first to fit `kept`.
pub proof fn lemma_stripping_keeps_first(tokens: Seq<Seq<char>>, shapes: Seq<Shape>, kept: Shape)
    requires
        forall|k: int| 0 <= k < shapes.len() ==> (#[trigger] shapes[k]).apart_from(kept),
    ensures
        first_token(stripped(tokens, shapes), kept) == first_token(tokens, kept),
    decreases shapes.len(),
{
    if shapes.len() > 0 {
        lemma_stripping_keeps_first(tokens, shapes.drop_last(), kept);
        lemma_removal_keeps_first(stripped(tokens, shapes.drop_last()), shapes.last(), kept);
    }
}

/// A token that fits none of the shapes looked for is still in the list
/// afterwards.
pub proof fn lemma_stripping_leaves_stranger(
    tokens: Seq<Seq<char>>,
    shapes: Seq<Shape>,
    token: Seq<char>,
)
    requires
        tokens.contains(token),
        forall|k: int| 0 <= k < shapes.len() ==> !(#[trigger] shapes[k]).fits(token),
    ensures
        stripped(tokens, shapes).contains(token),
    decreases shapes.len(),
{
    if shapes.len() > 0 {
        let before = stripped(tokens, shapes.drop_last());
        lemma_stripping_leaves_stranger(tokens, shapes.drop_last(), token);
        lemma_taken_or_left(before, shapes.last(), token);
    }
}

} // verus!
