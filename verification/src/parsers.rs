//! The two parsers that need no knowledge of what a label means: one that drops every label,
//! and one that keeps them all as they are.

use crate::context::key_of;
use crate::context::Context;
use crate::text::texts;
use crate::username::fed;
use crate::username::identity_of;
use crate::username::labels_of;
use crate::username::parsed;
use crate::username::UsernameError;
use crate::username::UsernameLabelParser;
use crate::username::UsernameLabelParserLayer;
use crate::username::UsernameLabelState;
use std::convert::Infallible;
use vstd::prelude::*;

verus! {

/// A parser that uses every label and keeps none. With it, no label is ever refused.
#[derive(Debug, Clone, Default)]
#[non_exhaustive]
pub struct UsernameLabelParserVoid;

impl UsernameLabelParserVoid {
    /// A new parser.
    pub fn new() -> (parser: Self)
        ensures
            parser == UsernameLabelParserVoid,
    {
        UsernameLabelParserVoid
    }
}

impl<State, Request> UsernameLabelParserLayer<State, Request> for UsernameLabelParserVoid {
    type Parser = UsernameLabelParserVoid;

    /// The parser is a copy of the layer.
    open spec fn creates(&self, ctx: &Context<State>, req: &Request, parser: Self::Parser) -> bool {
        parser == *self
    }

    fn create_parser(&self, ctx: &Context<State>, req: &Request) -> (parser: Self::Parser) {
        UsernameLabelParserVoid
    }
}

impl<State, Request> UsernameLabelParser<State, Request> for UsernameLabelParserVoid {
    type Error = Infallible;

    /// Every label is used, and the parser stays as it is.
    open spec fn label_step(
        self,
        ctx: &Context<State>,
        req: &Request,
        label: Seq<char>,
        after: Self,
        state: UsernameLabelState,
    ) -> bool {
        after == self && state is Used
    }

    /// `build` succeeds and changes nothing.
    open spec fn built(
        self,
        ctx: Context<State>,
        req: Request,
        ctx_after: Context<State>,
        req_after: Request,
        result: Result<(), Self::Error>,
    ) -> bool {
        result is Ok && ctx_after == ctx && req_after == req
    }

    fn parse_label(&mut self, ctx: &Context<State>, req: &Request, label: &str) -> (state:
        UsernameLabelState) {
        UsernameLabelState::Used
    }

    fn build(self, ctx: &mut Context<State>, req: &mut Request) -> (result: Result<
        (),
        Self::Error,
    >) {
        Ok(())
    }
}

/// The labels of a username, as they stood in it and in their order. This is what
/// [`UsernameOpaqueLabelParser`] leaves in the context.
#[derive(Debug, Clone, Default)]
pub struct UsernameLabels(pub Vec<String>);

impl View for UsernameLabels {
    type V = Seq<Seq<char>>;

    /// The labels, in order.
    open spec fn view(&self) -> Seq<Seq<char>> {
        texts(self.0@)
    }
}

/// A parser that uses every label and keeps each one as it is.
#[derive(Debug, Clone, Default)]
pub struct UsernameOpaqueLabelParser {
    labels: Vec<String>,
}

impl View for UsernameOpaqueLabelParser {
    type V = Seq<Seq<char>>;

    /// The labels that the parser has kept so far, in the order in which it saw them.
    closed spec fn view(&self) -> Seq<Seq<char>> {
        texts(self.labels@)
    }
}

impl UsernameOpaqueLabelParser {
    /// A new parser, which has kept nothing yet.
    pub fn new() -> (parser: Self)
        ensures
            parser@ == Seq::<Seq<char>>::empty(),
    {
        UsernameOpaqueLabelParser { labels: Vec::new() }
    }

    /// Ends the parser and hands out the labels that it has kept.
    pub fn into_labels(self) -> (labels: UsernameLabels)
        ensures
            labels@ == self@,
    {
        UsernameLabels(self.labels)
    }
}

impl<State, Request> UsernameLabelParserLayer<State, Request> for UsernameOpaqueLabelParser {
    type Parser = UsernameOpaqueLabelParser;

    /// The parser has kept nothing yet, whatever the layer holds.
    open spec fn creates(&self, ctx: &Context<State>, req: &Request, parser: Self::Parser) -> bool {
        parser@ == Seq::<Seq<char>>::empty()
    }

    fn create_parser(&self, ctx: &Context<State>, req: &Request) -> (parser: Self::Parser) {
        UsernameOpaqueLabelParser::new()
    }
}

impl<State, Request> UsernameLabelParser<State, Request> for UsernameOpaqueLabelParser {
    type Error = Infallible;

    /// Every label is used, and is kept behind those kept before.
    open spec fn label_step(
        self,
        ctx: &Context<State>,
        req: &Request,
        label: Seq<char>,
        after: Self,
        state: UsernameLabelState,
    ) -> bool {
        after@ == self@.push(label) && state is Used
    }

    /// `build` succeeds and stores the kept labels in the context, as [`UsernameLabels`],
    /// in place of those that were stored, if any. Nothing else in the context changes, and
    /// the request stays as it is.
    open spec fn built(
        self,
        ctx: Context<State>,
        req: Request,
        ctx_after: Context<State>,
        req_after: Request,
        result: Result<(), Self::Error>,
    ) -> bool {
        &&& result is Ok
        &&& ctx_after.stored::<UsernameLabels>() matches Some(labels) && labels@ == self@
        &&& ctx.refiled(&ctx_after, key_of::<UsernameLabels>())
        &&& req_after == req
    }

    fn parse_label(&mut self, ctx: &Context<State>, req: &Request, label: &str) -> (state:
        UsernameLabelState) {
        let kept = label.to_owned();
        self.labels.push(kept);
        assert(self@ =~= old(self)@.push(label@));
        UsernameLabelState::Used
    }

    fn build(self, ctx: &mut Context<State>, req: &mut Request) -> (result: Result<
        (),
        Self::Error,
    >) {
        ctx.insert(self.into_labels());
        Ok(())
    }
}

/// Whatever labels it was fed, the collector has kept them all behind those that it held
/// before, in their order.
pub proof fn lemma_collector_keeps_order<State, Request>(
    parser: UsernameOpaqueLabelParser,
    ctx: &Context<State>,
    req: &Request,
    labels: Seq<Seq<char>>,
    after: UsernameOpaqueLabelParser,
)
    requires
        fed(parser, ctx, req, labels, after),
    ensures
        after@ == parser@ + labels,
    decreases labels.len(),
{
    if labels.len() > 0 {
        let before = choose|before: UsernameOpaqueLabelParser|
            fed(parser, ctx, req, labels.drop_last(), before) && #[trigger] before.label_step(
                ctx,
                req,
                labels.last(),
                after,
                UsernameLabelState::Used,
            );
        lemma_collector_keeps_order(parser, ctx, req, labels.drop_last(), before);
    }
}

/// With the collector no label is refused: a username whose identity is not empty parses
/// to its identity, the labels are stored in the context, in their order, behind those
/// that the collector held before, and the request stays as it is.
pub proof fn lemma_collector_accepts<State, Request>(
    parser: UsernameOpaqueLabelParser,
    ctx: Context<State>,
    req: Request,
    username: Seq<char>,
    separator: char,
    ctx_after: Context<State>,
    req_after: Request,
    result: Result<String, UsernameError<Infallible>>,
)
    requires
        identity_of(username, separator).len() > 0,
        parsed(parser, ctx, req, username, separator, ctx_after, req_after, result),
    ensures
        result matches Ok(name) && name@ == identity_of(username, separator),
        ctx_after.stored::<UsernameLabels>() matches Some(labels) && labels@ == parser@
            + labels_of(username, separator),
        ctx.refiled(&ctx_after, key_of::<UsernameLabels>()),
        req_after == req,
{
    let labels = labels_of(username, separator);
    let last = choose|last: UsernameOpaqueLabelParser| #[trigger]
        fed(parser, &ctx, &req, labels, last) && last.built(
            ctx,
            req,
            ctx_after,
            req_after,
            Ok(()),
        );
    lemma_collector_keeps_order(parser, &ctx, &req, labels, last);
}

/// With the void parser no label is refused and nothing is written: a username whose
/// identity is not empty parses to its identity, and the context and the request stay as
/// they are.
pub proof fn lemma_void_accepts<State, Request>(
    parser: UsernameLabelParserVoid,
    ctx: Context<State>,
    req: Request,
    username: Seq<char>,
    separator: char,
    ctx_after: Context<State>,
    req_after: Request,
    result: Result<String, UsernameError<Infallible>>,
)
    requires
        identity_of(username, separator).len() > 0,
        parsed(parser, ctx, req, username, separator, ctx_after, req_after, result),
    ensures
        result matches Ok(name) && name@ == identity_of(username, separator),
        ctx_after == ctx,
        req_after == req,
{
}

} // verus!
