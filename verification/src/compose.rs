//! Several parsers as one.
//!
//! A tuple of parsers is a parser that offers every label to all of its members, in order: it
//! has used a label when at least one member has. Wrapped in [`ExclusiveUsernameParsers`], it
//! offers a label to its members in order until one uses it: the members behind that one do
//! not see the label. Either way `build` builds every member, in order, and stops at the
//! first that fails; what the members before it wrote stays written.
//!
//! A `Vec` of parsers of one type is composed in the same two ways, for any number of
//! members. Tuples nest, so members of different types can be composed in any number too.

use crate::context::Context;
use crate::username::lemma_ok_is_unit;
use crate::username::UsernameLabelParser;
use crate::username::UsernameLabelParserLayer;
use crate::username::UsernameLabelState;
use vstd::prelude::*;

verus! {

/// A tuple or a `Vec` of parsers in which a label goes to the first member that uses it,
/// and to none behind it.
#[derive(Debug, Clone, Default)]
pub struct ExclusiveUsernameParsers<P>(pub P);

/// Which member of a pair failed in `build`, and how.
#[derive(Debug, PartialEq, Eq)]
pub enum PairBuildError<A, B> {
    /// The first member failed.
    First(A),
    /// The first member succeeded, then the second failed.
    Second(B),
}

/// Which member of a triple failed in `build`, and how.
#[derive(Debug, PartialEq, Eq)]
pub enum TripleBuildError<A, B, C> {
    /// The first member failed.
    First(A),
    /// The first member succeeded, then the second failed.
    Second(B),
    /// The first two members succeeded, then the third failed.
    Third(C),
}

/// Which member of a `Vec` failed in `build`, and how.
#[derive(Debug, PartialEq, Eq)]
pub struct IndexedBuildError<E> {
    /// The position of the member that failed. Those before it succeeded.
    pub index: usize,
    /// Its error.
    pub error: E,
}

/// Whether a call of `parse_label` with `label` may turn the parser `parser` into `after`,
/// whatever it answers.
pub open spec fn stepped<P, State, Request>(
    parser: P,
    ctx: &Context<State>,
    req: &Request,
    label: Seq<char>,
    after: P,
) -> bool where P: UsernameLabelParser<State, Request> {
    ||| parser.label_step(ctx, req, label, after, UsernameLabelState::Used)
    ||| parser.label_step(ctx, req, label, after, UsernameLabelState::Ignored)
}

/// Whether building `first` and then, if that succeeded, `second` may turn `ctx` and `req`
/// into `ctx_after` and `req_after` and end in `result`.
pub open spec fn built_pair<A, B, State, Request>(
    first: A,
    second: B,
    ctx: Context<State>,
    req: Request,
    ctx_after: Context<State>,
    req_after: Request,
    result: Result<(), PairBuildError<A::Error, B::Error>>,
) -> bool where A: UsernameLabelParser<State, Request>, B: UsernameLabelParser<State, Request> {
    match result {
        Err(PairBuildError::First(error)) => first.built(
            ctx,
            req,
            ctx_after,
            req_after,
            Err(error),
        ),
        Err(PairBuildError::Second(error)) => exists|ctx_mid: Context<State>, req_mid: Request|
            {
                &&& #[trigger] first.built(ctx, req, ctx_mid, req_mid, Ok(()))
                &&& second.built(ctx_mid, req_mid, ctx_after, req_after, Err(error))
            },
        Ok(_) => exists|ctx_mid: Context<State>, req_mid: Request|
            {
                &&& #[trigger] first.built(ctx, req, ctx_mid, req_mid, Ok(()))
                &&& second.built(ctx_mid, req_mid, ctx_after, req_after, Ok(()))
            },
    }
}

/// Builds `first` and then, if that succeeded, `second`.
fn build_pair<A, B, State, Request>(
    first: A,
    second: B,
    ctx: &mut Context<State>,
    req: &mut Request,
) -> (result: Result<(), PairBuildError<A::Error, B::Error>>) where
    A: UsernameLabelParser<State, Request>,
    B: UsernameLabelParser<State, Request>,

    ensures
        built_pair(first, second, *old(ctx), *old(req), *final(ctx), *final(req), result),
{
    let outcome = first.build(ctx, req);
    match outcome {
        Err(error) => {
            return Err(PairBuildError::First(error));
        },
        Ok(_) => {},
    }
    proof {
        lemma_ok_is_unit(outcome);
    }
    let outcome = second.build(ctx, req);
    match outcome {
        Err(error) => Err(PairBuildError::Second(error)),
        Ok(_) => {
            proof {
                lemma_ok_is_unit(outcome);
            }
            Ok(())
        },
    }
}

impl<State, Request, A, B> UsernameLabelParserLayer<State, Request> for (A, B) where
    A: UsernameLabelParserLayer<State, Request>,
    B: UsernameLabelParserLayer<State, Request>,
 {
    type Parser = (A::Parser, B::Parser);

    /// Each member makes its parser.
    open spec fn creates(&self, ctx: &Context<State>, req: &Request, parser: Self::Parser) -> bool {
        self.0.creates(ctx, req, parser.0) && self.1.creates(ctx, req, parser.1)
    }

    fn create_parser(&self, ctx: &Context<State>, req: &Request) -> (parser: Self::Parser) {
        (self.0.create_parser(ctx, req), self.1.create_parser(ctx, req))
    }
}

impl<State, Request, A, B> UsernameLabelParserLayer<State, Request> for ExclusiveUsernameParsers<
    (A, B),
> where A: UsernameLabelParserLayer<State, Request>, B: UsernameLabelParserLayer<State, Request> {
    type Parser = ExclusiveUsernameParsers<(A::Parser, B::Parser)>;

    /// Each member makes its parser.
    open spec fn creates(&self, ctx: &Context<State>, req: &Request, parser: Self::Parser) -> bool {
        self.0.0.creates(ctx, req, parser.0.0) && self.0.1.creates(ctx, req, parser.0.1)
    }

    fn create_parser(&self, ctx: &Context<State>, req: &Request) -> (parser: Self::Parser) {
        ExclusiveUsernameParsers(
            (self.0.0.create_parser(ctx, req), self.0.1.create_parser(ctx, req)),
        )
    }
}

impl<State, Request, A, B> UsernameLabelParser<State, Request> for (A, B) where
    A: UsernameLabelParser<State, Request>,
    B: UsernameLabelParser<State, Request>,
 {
    type Error = PairBuildError<A::Error, B::Error>;

    /// Both members see the label. The pair has used it when a member has.
    open spec fn label_step(
        self,
        ctx: &Context<State>,
        req: &Request,
        label: Seq<char>,
        after: Self,
        state: UsernameLabelState,
    ) -> bool {
        &&& stepped(self.0, ctx, req, label, after.0)
        &&& stepped(self.1, ctx, req, label, after.1)
        &&& match state {
            UsernameLabelState::Used => {
                ||| self.0.label_step(ctx, req, label, after.0, UsernameLabelState::Used)
                ||| self.1.label_step(ctx, req, label, after.1, UsernameLabelState::Used)
            },
            UsernameLabelState::Ignored => {
                &&& self.0.label_step(ctx, req, label, after.0, UsernameLabelState::Ignored)
                &&& self.1.label_step(ctx, req, label, after.1, UsernameLabelState::Ignored)
            },
        }
    }

    /// The members are built in order, up to the first that fails.
    open spec fn built(
        self,
        ctx: Context<State>,
        req: Request,
        ctx_after: Context<State>,
        req_after: Request,
        result: Result<(), Self::Error>,
    ) -> bool {
        built_pair(self.0, self.1, ctx, req, ctx_after, req_after, result)
    }

    fn parse_label(&mut self, ctx: &Context<State>, req: &Request, label: &str) -> (state:
        UsernameLabelState) {
        let mut state = UsernameLabelState::Ignored;
        if self.0.parse_label(ctx, req, label) == UsernameLabelState::Used {
            state = UsernameLabelState::Used;
        }
        if self.1.parse_label(ctx, req, label) == UsernameLabelState::Used {
            state = UsernameLabelState::Used;
        }
        state
    }

    fn build(self, ctx: &mut Context<State>, req: &mut Request) -> (result: Result<
        (),
        Self::Error,
    >) {
        let (first, second) = self;
        build_pair(first, second, ctx, req)
    }
}

impl<State, Request, A, B> UsernameLabelParser<State, Request> for ExclusiveUsernameParsers<
    (A, B),
> where A: UsernameLabelParser<State, Request>, B: UsernameLabelParser<State, Request> {
    type Error = PairBuildError<A::Error, B::Error>;

    /// The first member sees the label. The second sees it only if the first has ignored
    /// it, and stays as it is otherwise.
    open spec fn label_step(
        self,
        ctx: &Context<State>,
        req: &Request,
        label: Seq<char>,
        after: Self,
        state: UsernameLabelState,
    ) -> bool {
        match state {
            UsernameLabelState::Used => {
                ||| {
                    &&& self.0.0.label_step(ctx, req, label, after.0.0, UsernameLabelState::Used)
                    &&& after.0.1 == self.0.1
                }
                ||| {
                    &&& self.0.0.label_step(
                        ctx,
                        req,
                        label,
                        after.0.0,
                        UsernameLabelState::Ignored,
                    )
                    &&& self.0.1.label_step(ctx, req, label, after.0.1, UsernameLabelState::Used)
                }
            },
            UsernameLabelState::Ignored => {
                &&& self.0.0.label_step(ctx, req, label, after.0.0, UsernameLabelState::Ignored)
                &&& self.0.1.label_step(ctx, req, label, after.0.1, UsernameLabelState::Ignored)
            },
        }
    }

    /// The members are built in order, up to the first that fails.
    open spec fn built(
        self,
        ctx: Context<State>,
        req: Request,
        ctx_after: Context<State>,
        req_after: Request,
        result: Result<(), Self::Error>,
    ) -> bool {
        built_pair(self.0.0, self.0.1, ctx, req, ctx_after, req_after, result)
    }

    fn parse_label(&mut self, ctx: &Context<State>, req: &Request, label: &str) -> (state:
        UsernameLabelState) {
        if self.0.0.parse_label(ctx, req, label) == UsernameLabelState::Used {
            return UsernameLabelState::Used;
        }
        if self.0.1.parse_label(ctx, req, label) == UsernameLabelState::Used {
            return UsernameLabelState::Used;
        }
        UsernameLabelState::Ignored
    }

    fn build(self, ctx: &mut Context<State>, req: &mut Request) -> (result: Result<
        (),
        Self::Error,
    >) {
        let ExclusiveUsernameParsers((first, second)) = self;
        build_pair(first, second, ctx, req)
    }
}

/// Whether building `first`, `second` and `third` in order, up to the first that fails, may
/// turn `ctx` and `req` into `ctx_after` and `req_after` and end in `result`.
pub open spec fn built_triple<A, B, C, State, Request>(
    first: A,
    second: B,
    third: C,
    ctx: Context<State>,
    req: Request,
    ctx_after: Context<State>,
    req_after: Request,
    result: Result<(), TripleBuildError<A::Error, B::Error, C::Error>>,
) -> bool where
    A: UsernameLabelParser<State, Request>,
    B: UsernameLabelParser<State, Request>,
    C: UsernameLabelParser<State, Request>,
 {
    match result {
        Err(TripleBuildError::First(error)) => first.built(
            ctx,
            req,
            ctx_after,
            req_after,
            Err(error),
        ),
        Err(TripleBuildError::Second(error)) => exists|ctx_mid: Context<State>, req_mid: Request|
            {
                &&& #[trigger] first.built(ctx, req, ctx_mid, req_mid, Ok(()))
                &&& built_pair(
                    second,
                    third,
                    ctx_mid,
                    req_mid,
                    ctx_after,
                    req_after,
                    Err(PairBuildError::First(error)),
                )
            },
        Err(TripleBuildError::Third(error)) => exists|ctx_mid: Context<State>, req_mid: Request|
            {
                &&& #[trigger] first.built(ctx, req, ctx_mid, req_mid, Ok(()))
                &&& built_pair(
                    second,
                    third,
                    ctx_mid,
                    req_mid,
                    ctx_after,
                    req_after,
                    Err(PairBuildError::Second(error)),
                )
            },
        Ok(_) => exists|ctx_mid: Context<State>, req_mid: Request|
            {
                &&& #[trigger] first.built(ctx, req, ctx_mid, req_mid, Ok(()))
                &&& built_pair(second, third, ctx_mid, req_mid, ctx_after, req_after, Ok(()))
            },
    }
}

/// Builds `first`, `second` and `third` in order, up to the first that fails.
fn build_triple<A, B, C, State, Request>(
    first: A,
    second: B,
    third: C,
    ctx: &mut Context<State>,
    req: &mut Request,
) -> (result: Result<(), TripleBuildError<A::Error, B::Error, C::Error>>) where
    A: UsernameLabelParser<State, Request>,
    B: UsernameLabelParser<State, Request>,
    C: UsernameLabelParser<State, Request>,

    ensures
        built_triple(first, second, third, *old(ctx), *old(req), *final(ctx), *final(req), result),
{
    let outcome = first.build(ctx, req);
    match outcome {
        Err(error) => {
            return Err(TripleBuildError::First(error));
        },
        Ok(_) => {},
    }
    proof {
        lemma_ok_is_unit(outcome);
    }
    let outcome = build_pair(second, third, ctx, req);
    match outcome {
        Err(PairBuildError::First(error)) => Err(TripleBuildError::Second(error)),
        Err(PairBuildError::Second(error)) => Err(TripleBuildError::Third(error)),
        Ok(_) => {
            proof {
                lemma_ok_is_unit(outcome);
            }
            Ok(())
        },
    }
}

impl<State, Request, A, B, C> UsernameLabelParserLayer<State, Request> for (A, B, C) where
    A: UsernameLabelParserLayer<State, Request>,
    B: UsernameLabelParserLayer<State, Request>,
    C: UsernameLabelParserLayer<State, Request>,
 {
    type Parser = (A::Parser, B::Parser, C::Parser);

    /// Each member makes its parser.
    open spec fn creates(&self, ctx: &Context<State>, req: &Request, parser: Self::Parser) -> bool {
        &&& self.0.creates(ctx, req, parser.0)
        &&& self.1.creates(ctx, req, parser.1)
        &&& self.2.creates(ctx, req, parser.2)
    }

    fn create_parser(&self, ctx: &Context<State>, req: &Request) -> (parser: Self::Parser) {
        (
            self.0.create_parser(ctx, req),
            self.1.create_parser(ctx, req),
            self.2.create_parser(ctx, req),
        )
    }
}

impl<State, Request, A, B, C> UsernameLabelParserLayer<State, Request> for ExclusiveUsernameParsers<
    (A, B, C),
> where
    A: UsernameLabelParserLayer<State, Request>,
    B: UsernameLabelParserLayer<State, Request>,
    C: UsernameLabelParserLayer<State, Request>,
 {
    type Parser = ExclusiveUsernameParsers<(A::Parser, B::Parser, C::Parser)>;

    /// Each member makes its parser.
    open spec fn creates(&self, ctx: &Context<State>, req: &Request, parser: Self::Parser) -> bool {
        &&& self.0.0.creates(ctx, req, parser.0.0)
        &&& self.0.1.creates(ctx, req, parser.0.1)
        &&& self.0.2.creates(ctx, req, parser.0.2)
    }

    fn create_parser(&self, ctx: &Context<State>, req: &Request) -> (parser: Self::Parser) {
        ExclusiveUsernameParsers(
            (
                self.0.0.create_parser(ctx, req),
                self.0.1.create_parser(ctx, req),
                self.0.2.create_parser(ctx, req),
            ),
        )
    }
}

impl<State, Request, A, B, C> UsernameLabelParser<State, Request> for (A, B, C) where
    A: UsernameLabelParser<State, Request>,
    B: UsernameLabelParser<State, Request>,
    C: UsernameLabelParser<State, Request>,
 {
    type Error = TripleBuildError<A::Error, B::Error, C::Error>;

    /// All members see the label. The triple has used it when a member has.
    open spec fn label_step(
        self,
        ctx: &Context<State>,
        req: &Request,
        label: Seq<char>,
        after: Self,
        state: UsernameLabelState,
    ) -> bool {
        &&& stepped(self.0, ctx, req, label, after.0)
        &&& stepped(self.1, ctx, req, label, after.1)
        &&& stepped(self.2, ctx, req, label, after.2)
        &&& match state {
            UsernameLabelState::Used => {
                ||| self.0.label_step(ctx, req, label, after.0, UsernameLabelState::Used)
                ||| self.1.label_step(ctx, req, label, after.1, UsernameLabelState::Used)
                ||| self.2.label_step(ctx, req, label, after.2, UsernameLabelState::Used)
            },
            UsernameLabelState::Ignored => {
                &&& self.0.label_step(ctx, req, label, after.0, UsernameLabelState::Ignored)
                &&& self.1.label_step(ctx, req, label, after.1, UsernameLabelState::Ignored)
                &&& self.2.label_step(ctx, req, label, after.2, UsernameLabelState::Ignored)
            },
        }
    }

    /// The members are built in order, up to the first that fails.
    open spec fn built(
        self,
        ctx: Context<State>,
        req: Request,
        ctx_after: Context<State>,
        req_after: Request,
        result: Result<(), Self::Error>,
    ) -> bool {
        built_triple(self.0, self.1, self.2, ctx, req, ctx_after, req_after, result)
    }

    fn parse_label(&mut self, ctx: &Context<State>, req: &Request, label: &str) -> (state:
        UsernameLabelState) {
        let mut state = UsernameLabelState::Ignored;
        if self.0.parse_label(ctx, req, label) == UsernameLabelState::Used {
            state = UsernameLabelState::Used;
        }
        if self.1.parse_label(ctx, req, label) == UsernameLabelState::Used {
            state = UsernameLabelState::Used;
        }
        if self.2.parse_label(ctx, req, label) == UsernameLabelState::Used {
            state = UsernameLabelState::Used;
        }
        state
    }

    fn build(self, ctx: &mut Context<State>, req: &mut Request) -> (result: Result<
        (),
        Self::Error,
    >) {
        let (first, second, third) = self;
        build_triple(first, second, third, ctx, req)
    }
}

impl<State, Request, A, B, C> UsernameLabelParser<State, Request> for ExclusiveUsernameParsers<
    (A, B, C),
> where
    A: UsernameLabelParser<State, Request>,
    B: UsernameLabelParser<State, Request>,
    C: UsernameLabelParser<State, Request>,
 {
    type Error = TripleBuildError<A::Error, B::Error, C::Error>;

    /// The members see the label in order, up to the first that uses it. Those behind it
    /// stay as they are.
    open spec fn label_step(
        self,
        ctx: &Context<State>,
        req: &Request,
        label: Seq<char>,
        after: Self,
        state: UsernameLabelState,
    ) -> bool {
        match state {
            UsernameLabelState::Used => {
                ||| {
                    &&& self.0.0.label_step(ctx, req, label, after.0.0, UsernameLabelState::Used)
                    &&& after.0.1 == self.0.1
                    &&& after.0.2 == self.0.2
                }
                ||| {
                    &&& self.0.0.label_step(
                        ctx,
                        req,
                        label,
                        after.0.0,
                        UsernameLabelState::Ignored,
                    )
                    &&& self.0.1.label_step(ctx, req, label, after.0.1, UsernameLabelState::Used)
                    &&& after.0.2 == self.0.2
                }
                ||| {
                    &&& self.0.0.label_step(
                        ctx,
                        req,
                        label,
                        after.0.0,
                        UsernameLabelState::Ignored,
                    )
                    &&& self.0.1.label_step(
                        ctx,
                        req,
                        label,
                        after.0.1,
                        UsernameLabelState::Ignored,
                    )
                    &&& self.0.2.label_step(ctx, req, label, after.0.2, UsernameLabelState::Used)
                }
            },
            UsernameLabelState::Ignored => {
                &&& self.0.0.label_step(ctx, req, label, after.0.0, UsernameLabelState::Ignored)
                &&& self.0.1.label_step(ctx, req, label, after.0.1, UsernameLabelState::Ignored)
                &&& self.0.2.label_step(ctx, req, label, after.0.2, UsernameLabelState::Ignored)
            },
        }
    }

    /// The members are built in order, up to the first that fails.
    open spec fn built(
        self,
        ctx: Context<State>,
        req: Request,
        ctx_after: Context<State>,
        req_after: Request,
        result: Result<(), Self::Error>,
    ) -> bool {
        built_triple(self.0.0, self.0.1, self.0.2, ctx, req, ctx_after, req_after, result)
    }

    fn parse_label(&mut self, ctx: &Context<State>, req: &Request, label: &str) -> (state:
        UsernameLabelState) {
        if self.0.0.parse_label(ctx, req, label) == UsernameLabelState::Used {
            return UsernameLabelState::Used;
        }
        if self.0.1.parse_label(ctx, req, label) == UsernameLabelState::Used {
            return UsernameLabelState::Used;
        }
        if self.0.2.parse_label(ctx, req, label) == UsernameLabelState::Used {
            return UsernameLabelState::Used;
        }
        UsernameLabelState::Ignored
    }

    fn build(self, ctx: &mut Context<State>, req: &mut Request) -> (result: Result<
        (),
        Self::Error,
    >) {
        let ExclusiveUsernameParsers((first, second, third)) = self;
        build_triple(first, second, third, ctx, req)
    }
}

/// Whether building `parsers` in order may turn `ctx` and `req` into `ctx_after` and
/// `req_after`, with every one of them succeeding.
pub open spec fn built_all<P, State, Request>(
    parsers: Seq<P>,
    ctx: Context<State>,
    req: Request,
    ctx_after: Context<State>,
    req_after: Request,
) -> bool where P: UsernameLabelParser<State, Request>
    decreases parsers.len(),
{
    if parsers.len() == 0 {
        ctx_after == ctx && req_after == req
    } else {
        exists|ctx_mid: Context<State>, req_mid: Request|
            {
                &&& built_all(parsers.drop_last(), ctx, req, ctx_mid, req_mid)
                &&& #[trigger] parsers.last().built(ctx_mid, req_mid, ctx_after, req_after, Ok(()))
            }
    }
}

/// Whether building `parsers` in order, up to the first that fails, may turn `ctx` and `req`
/// into `ctx_after` and `req_after` and end in `result`.
pub open spec fn built_in_order<P, State, Request>(
    parsers: Seq<P>,
    ctx: Context<State>,
    req: Request,
    ctx_after: Context<State>,
    req_after: Request,
    result: Result<(), IndexedBuildError<P::Error>>,
) -> bool where P: UsernameLabelParser<State, Request> {
    match result {
        Ok(_) => built_all(parsers, ctx, req, ctx_after, req_after),
        Err(failure) => {
            &&& failure.index < parsers.len()
            &&& exists|ctx_mid: Context<State>, req_mid: Request|
                {
                    &&& built_all(parsers.take(failure.index as int), ctx, req, ctx_mid, req_mid)
                    &&& #[trigger] parsers[failure.index as int].built(
                        ctx_mid,
                        req_mid,
                        ctx_after,
                        req_after,
                        Err(failure.error),
                    )
                }
        },
    }
}

/// Builds `parsers` in order, up to the first that fails.
fn build_in_order<P, State, Request>(
    parsers: Vec<P>,
    ctx: &mut Context<State>,
    req: &mut Request,
) -> (result: Result<(), IndexedBuildError<P::Error>>) where P: UsernameLabelParser<State, Request>
    ensures
        built_in_order(parsers@, *old(ctx), *old(req), *final(ctx), *final(req), result),
{
    let count: usize = parsers.len();
    let mut index: usize = 0;
    for parser in it: parsers
        invariant
            it.seq() == parsers@,
            parsers@.len() == count,
            index == it.index(),
            built_all(parsers@.take(index as int), *old(ctx), *old(req), *ctx, *req),
    {
        let outcome = parser.build(ctx, req);
        match outcome {
            Err(error) => {
                let failure = IndexedBuildError { index, error };
                assert(failure.index == index && failure.error == error);
                return Err(failure);
            },
            Ok(_) => {},
        }
        proof {
            lemma_ok_is_unit(outcome);
            let done = parsers@.take(index + 1);
            assert(done.drop_last() =~= parsers@.take(index as int));
            assert(done.last() == parser);
        }
        index = index + 1;
    }
    proof {
        assert(parsers@.take(index as int) =~= parsers@);
    }
    Ok(())
}

impl<State, Request, L> UsernameLabelParserLayer<State, Request> for Vec<L> where
    L: UsernameLabelParserLayer<State, Request>,
 {
    type Parser = Vec<L::Parser>;

    /// Each member makes its parser.
    open spec fn creates(&self, ctx: &Context<State>, req: &Request, parser: Self::Parser) -> bool {
        &&& parser@.len() == self@.len()
        &&& forall|i: int|
            0 <= i < self@.len() ==> (#[trigger] self@[i]).creates(ctx, req, parser@[i])
    }

    fn create_parser(&self, ctx: &Context<State>, req: &Request) -> (parser: Self::Parser) {
        let mut parsers: Vec<L::Parser> = Vec::new();
        let mut next: usize = 0;
        while next < self.len()
            invariant
                next <= self@.len(),
                parsers@.len() == next,
                forall|i: int|
                    0 <= i < next ==> (#[trigger] self@[i]).creates(ctx, req, parsers@[i]),
            decreases self@.len() - next,
        {
            let parser = self[next].create_parser(ctx, req);
            parsers.push(parser);
            next += 1;
        }
        parsers
    }
}

impl<State, Request, P> UsernameLabelParser<State, Request> for Vec<P> where
    P: UsernameLabelParser<State, Request>,
 {
    type Error = IndexedBuildError<P::Error>;

    /// All members see the label. The `Vec` has used it when a member has.
    open spec fn label_step(
        self,
        ctx: &Context<State>,
        req: &Request,
        label: Seq<char>,
        after: Self,
        state: UsernameLabelState,
    ) -> bool {
        &&& after@.len() == self@.len()
        &&& forall|i: int|
            0 <= i < self@.len() ==> stepped(#[trigger] self@[i], ctx, req, label, after@[i])
        &&& match state {
            UsernameLabelState::Used => exists|i: int|
                0 <= i < self@.len() && (#[trigger] self@[i]).label_step(
                    ctx,
                    req,
                    label,
                    after@[i],
                    UsernameLabelState::Used,
                ),
            UsernameLabelState::Ignored => forall|i: int|
                0 <= i < self@.len() ==> (#[trigger] self@[i]).label_step(
                    ctx,
                    req,
                    label,
                    after@[i],
                    UsernameLabelState::Ignored,
                ),
        }
    }

    /// The members are built in order, up to the first that fails.
    open spec fn built(
        self,
        ctx: Context<State>,
        req: Request,
        ctx_after: Context<State>,
        req_after: Request,
        result: Result<(), Self::Error>,
    ) -> bool {
        built_in_order(self@, ctx, req, ctx_after, req_after, result)
    }

    fn parse_label(&mut self, ctx: &Context<State>, req: &Request, label: &str) -> (state:
        UsernameLabelState) {
        let mut state = UsernameLabelState::Ignored;
        let mut next: usize = 0;
        while next < self.len()
            invariant
                next <= self@.len(),
                self@.len() == old(self)@.len(),
                forall|i: int|
                    0 <= i < next ==> stepped(#[trigger] old(self)@[i], ctx, req, label@, self@[i]),
                forall|i: int| next <= i < self@.len() ==> self@[i] == old(self)@[i],
                match state {
                    UsernameLabelState::Used => exists|i: int|
                        0 <= i < next && (#[trigger] old(self)@[i]).label_step(
                            ctx,
                            req,
                            label@,
                            self@[i],
                            UsernameLabelState::Used,
                        ),
                    UsernameLabelState::Ignored => forall|i: int|
                        0 <= i < next ==> (#[trigger] old(self)@[i]).label_step(
                            ctx,
                            req,
                            label@,
                            self@[i],
                            UsernameLabelState::Ignored,
                        ),
                },
            decreases self@.len() - next,
        {
            if self[next].parse_label(ctx, req, label) == UsernameLabelState::Used {
                state = UsernameLabelState::Used;
            }
            next += 1;
        }
        state
    }

    fn build(self, ctx: &mut Context<State>, req: &mut Request) -> (result: Result<
        (),
        Self::Error,
    >) {
        build_in_order(self, ctx, req)
    }
}

impl<State, Request, L> UsernameLabelParserLayer<State, Request> for ExclusiveUsernameParsers<
    Vec<L>,
> where L: UsernameLabelParserLayer<State, Request> {
    type Parser = ExclusiveUsernameParsers<Vec<L::Parser>>;

    /// Each member makes its parser.
    open spec fn creates(&self, ctx: &Context<State>, req: &Request, parser: Self::Parser) -> bool {
        self.0.creates(ctx, req, parser.0)
    }

    fn create_parser(&self, ctx: &Context<State>, req: &Request) -> (parser: Self::Parser) {
        ExclusiveUsernameParsers(self.0.create_parser(ctx, req))
    }
}

impl<State, Request, P> UsernameLabelParser<State, Request> for ExclusiveUsernameParsers<
    Vec<P>,
> where P: UsernameLabelParser<State, Request> {
    type Error = IndexedBuildError<P::Error>;

    /// The members see the label in order, up to the first that uses it. Those behind it
    /// stay as they are.
    open spec fn label_step(
        self,
        ctx: &Context<State>,
        req: &Request,
        label: Seq<char>,
        after: Self,
        state: UsernameLabelState,
    ) -> bool {
        &&& after.0@.len() == self.0@.len()
        &&& match state {
            UsernameLabelState::Used => exists|at: int|
                {
                    &&& 0 <= at < self.0@.len()
                    &&& forall|i: int|
                        0 <= i < at ==> (#[trigger] self.0@[i]).label_step(
                            ctx,
                            req,
                            label,
                            after.0@[i],
                            UsernameLabelState::Ignored,
                        )
                    &&& (#[trigger] self.0@[at]).label_step(
                        ctx,
                        req,
                        label,
                        after.0@[at],
                        UsernameLabelState::Used,
                    )
                    &&& forall|i: int|
                        at < i < self.0@.len() ==> after.0@[i] == #[trigger] self.0@[i]
                },
            UsernameLabelState::Ignored => forall|i: int|
                0 <= i < self.0@.len() ==> (#[trigger] self.0@[i]).label_step(
                    ctx,
                    req,
                    label,
                    after.0@[i],
                    UsernameLabelState::Ignored,
                ),
        }
    }

    /// The members are built in order, up to the first that fails.
    open spec fn built(
        self,
        ctx: Context<State>,
        req: Request,
        ctx_after: Context<State>,
        req_after: Request,
        result: Result<(), Self::Error>,
    ) -> bool {
        built_in_order(self.0@, ctx, req, ctx_after, req_after, result)
    }

    fn parse_label(&mut self, ctx: &Context<State>, req: &Request, label: &str) -> (state:
        UsernameLabelState) {
        let mut next: usize = 0;
        while next < self.0.len()
            invariant
                next <= self.0@.len(),
                self.0@.len() == old(self).0@.len(),
                forall|i: int|
                    0 <= i < next ==> (#[trigger] old(self).0@[i]).label_step(
                        ctx,
                        req,
                        label@,
                        self.0@[i],
                        UsernameLabelState::Ignored,
                    ),
                forall|i: int| next <= i < self.0@.len() ==> self.0@[i] == old(self).0@[i],
            decreases self.0@.len() - next,
        {
            if self.0[next].parse_label(ctx, req, label) == UsernameLabelState::Used {
                return UsernameLabelState::Used;
            }
            next += 1;
        }
        UsernameLabelState::Ignored
    }

    fn build(self, ctx: &mut Context<State>, req: &mut Request) -> (result: Result<
        (),
        Self::Error,
    >) {
        build_in_order(self.0, ctx, req)
    }
}

/// A pair has used every label that one of its members cannot ignore: where no step of the
/// first member ignores `label`, no step of the pair does.
pub proof fn lemma_pair_uses_what_first_uses<A, B, State, Request>(
    pair: (A, B),
    ctx: &Context<State>,
    req: &Request,
    label: Seq<char>,
    after: (A, B),
) where A: UsernameLabelParser<State, Request>, B: UsernameLabelParser<State, Request>
    requires
        forall|next: A| !#[trigger] pair.0.label_step(
            ctx,
            req,
            label,
            next,
            UsernameLabelState::Ignored,
        ),
    ensures
        !pair.label_step(ctx, req, label, after, UsernameLabelState::Ignored),
        pair.label_step(ctx, req, label, after, UsernameLabelState::Used) ==> stepped(
            pair.1,
            ctx,
            req,
            label,
            after.1,
        ),
{
}

/// In an exclusive pair the second member does not see what the first cannot ignore: where
/// no step of the first member ignores `label`, every step of the pair uses it and leaves
/// the second member as it was.
pub proof fn lemma_exclusive_pair_first_claims<A, B, State, Request>(
    pair: ExclusiveUsernameParsers<(A, B)>,
    ctx: &Context<State>,
    req: &Request,
    label: Seq<char>,
    after: ExclusiveUsernameParsers<(A, B)>,
    state: UsernameLabelState,
) where A: UsernameLabelParser<State, Request>, B: UsernameLabelParser<State, Request>
    requires
        forall|next: A| !#[trigger] pair.0.0.label_step(
            ctx,
            req,
            label,
            next,
            UsernameLabelState::Ignored,
        ),
        pair.label_step(ctx, req, label, after, state),
    ensures
        state is Used,
        after.0.1 == pair.0.1,
        pair.0.0.label_step(ctx, req, label, after.0.0, UsernameLabelState::Used),
{
}

/// In an exclusive `Vec` the members behind the first that cannot ignore a label do not
/// see it: where no step of the member at `at` ignores `label`, every step of the `Vec`
/// uses it and leaves the members behind `at` as they were.
pub proof fn lemma_exclusive_vec_member_claims<P, State, Request>(
    parsers: ExclusiveUsernameParsers<Vec<P>>,
    ctx: &Context<State>,
    req: &Request,
    label: Seq<char>,
    after: ExclusiveUsernameParsers<Vec<P>>,
    state: UsernameLabelState,
    at: int,
) where P: UsernameLabelParser<State, Request>
    requires
        0 <= at < parsers.0@.len(),
        forall|next: P| !#[trigger] parsers.0@[at].label_step(
            ctx,
            req,
            label,
            next,
            UsernameLabelState::Ignored,
        ),
        parsers.label_step(ctx, req, label, after, state),
    ensures
        state is Used,
        forall|i: int| at < i < parsers.0@.len() ==> after.0@[i] == parsers.0@[i],
{
    if state is Used {
        let first = choose|first: int|
            {
                &&& 0 <= first < parsers.0@.len()
                &&& forall|i: int|
                    0 <= i < first ==> (#[trigger] parsers.0@[i]).label_step(
                        ctx,
                        req,
                        label,
                        after.0@[i],
                        UsernameLabelState::Ignored,
                    )
                &&& (#[trigger] parsers.0@[first]).label_step(
                    ctx,
                    req,
                    label,
                    after.0@[first],
                    UsernameLabelState::Used,
                )
                &&& forall|i: int|
                    first < i < parsers.0@.len() ==> after.0@[i] == #[trigger] parsers.0@[i]
            };
        if at < first {
            assert(parsers.0@[at].label_step(
                ctx,
                req,
                label,
                after.0@[at],
                UsernameLabelState::Ignored,
            ));
        }
    } else {
        assert(parsers.0@[at].label_step(
            ctx,
            req,
            label,
            after.0@[at],
            UsernameLabelState::Ignored,
        ));
    }
}

} // verus!
