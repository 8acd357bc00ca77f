//! Usernames that carry labels: `john-residential-country-us` names the identity `john` and
//! hands the labels `residential`, `country` and `us` to a parser.
//!
//! A username is cut at a separator character. The first segment is the identity, every other
//! segment is a label. [`parse_username`] offers the labels to a [`UsernameLabelParser`] in
//! order, gives up at the first one that the parser ignores, and otherwise lets the parser
//! write what it found into the context and the request.
//!
//! What a parser does is its own business. It tells it through two relations,
//! [`UsernameLabelParser::label_step`] and [`UsernameLabelParser::built`], and the contracts
//! of this module are stated over them. A parser that tells nothing keeps the defaults, which
//! allow everything.

use crate::context::Context;
use crate::text::split;
use crate::text::split_text;
use crate::text::texts;
use vstd::prelude::*;
use vstd::string::StringExecFns;

verus! {

/// What a parser made of a label.
#[derive(Debug, Clone, Copy, PartialEq, Eq, Structural)]
pub enum UsernameLabelState {
    /// The parser knew the label and took it.
    Used,
    /// The parser did not know the label, or found it wrong.
    Ignored,
}

/// Reads the labels of a username one by one, then writes what it found.
pub trait UsernameLabelParser<State, Request>: Sized + Send + Sync + 'static {
    /// What can go wrong in `build`.
    type Error;

    /// Whether a call of `parse_label` with `label` may turn the parser `self` into `after`
    /// and answer `state`.
    open spec fn label_step(
        self,
        ctx: &Context<State>,
        req: &Request,
        label: Seq<char>,
        after: Self,
        state: UsernameLabelState,
    ) -> bool {
        true
    }

    /// Whether a call of `build` on the parser `self` may turn `ctx` and `req` into
    /// `ctx_after` and `req_after` and return `result`.
    open spec fn built(
        self,
        ctx: Context<State>,
        req: Request,
        ctx_after: Context<State>,
        req_after: Request,
        result: Result<(), Self::Error>,
    ) -> bool {
        true
    }

    /// Looks at one label and says whether the parser took it.
    fn parse_label(&mut self, ctx: &Context<State>, req: &Request, label: &str) -> (state:
        UsernameLabelState)
        ensures
            old(self).label_step(ctx, req, label@, *final(self), state),
    ;

    /// Ends the parser: writes what it found into the context and the request.
    fn build(self, ctx: &mut Context<State>, req: &mut Request) -> (result: Result<
        (),
        Self::Error,
    >)
        ensures
            self.built(*old(ctx), *old(req), *final(ctx), *final(req), result),
    ;
}

/// Makes the parser for one request.
pub trait UsernameLabelParserLayer<State, Request>: Send + Sync + 'static {
    /// The parser that this layer makes.
    type Parser;

    /// Whether `create_parser` may return `parser`.
    open spec fn creates(&self, ctx: &Context<State>, req: &Request, parser: Self::Parser) -> bool {
        true
    }

    /// A fresh parser.
    fn create_parser(&self, ctx: &Context<State>, req: &Request) -> (parser: Self::Parser)
        ensures
            self.creates(ctx, req, parser),
    ;
}

/// Why a username was refused.
#[derive(Debug, PartialEq, Eq)]
pub enum UsernameError<E> {
    /// The username has no first segment. A text always has one, so this is never returned.
    MissingIdentity,
    /// The first segment, the identity, is empty.
    EmptyIdentity,
    /// The parser ignored this label.
    UnrecognizedLabel(String),
    /// The parser's `build` failed with this error.
    FinalizeFailed(E),
}

/// How a refusal that is not the parser's own is worded.
pub open spec fn message_text<E>(error: UsernameError<E>) -> Option<Seq<char>> {
    match error {
        UsernameError::MissingIdentity => Some("missing username"@),
        UsernameError::EmptyIdentity => Some("empty username"@),
        UsernameError::UnrecognizedLabel(label) => Some("ignored username label: "@ + label@),
        UsernameError::FinalizeFailed(_) => None,
    }
}

impl<E> UsernameError<E> {
    /// The refusal in words. A failure of `build` has none of its own: the error that it
    /// holds speaks for it.
    pub fn message(&self) -> (message: Option<String>)
        ensures
            match message_text(*self) {
                Some(text) => message matches Some(found) && found@ == text,
                None => message is None,
            },
    {
        match self {
            UsernameError::MissingIdentity => Some(String::from_str("missing username")),
            UsernameError::EmptyIdentity => Some(String::from_str("empty username")),
            UsernameError::UnrecognizedLabel(label) => Some(
                String::from_str("ignored username label: ").concat(label.as_str()),
            ),
            UsernameError::FinalizeFailed(_) => None,
        }
    }
}

/// A success without a value is `Ok(())`.
pub proof fn lemma_ok_is_unit<E>(result: Result<(), E>)
    requires
        result is Ok,
    ensures
        result == Ok::<(), E>(()),
{
    assert(result->Ok_0 == ());
}

/// The identity of a username: its first segment.
pub open spec fn identity_of(username: Seq<char>, separator: char) -> Seq<char> {
    split(username, separator)[0]
}

/// The labels of a username: its segments after the first.
pub open spec fn labels_of(username: Seq<char>, separator: char) -> Seq<Seq<char>> {
    split(username, separator).skip(1)
}

/// Whether offering `labels` in order may turn the parser `parser` into `after`, with every
/// label used.
pub open spec fn fed<P, State, Request>(
    parser: P,
    ctx: &Context<State>,
    req: &Request,
    labels: Seq<Seq<char>>,
    after: P,
) -> bool where P: UsernameLabelParser<State, Request>
    decreases labels.len(),
{
    if labels.len() == 0 {
        after == parser
    } else {
        exists|before: P|
            fed(parser, ctx, req, labels.drop_last(), before) && #[trigger] before.label_step(
                ctx,
                req,
                labels.last(),
                after,
                UsernameLabelState::Used,
            )
    }
}

/// Whether `parse_username` may turn `ctx` and `req` into `ctx_after` and `req_after` and
/// return `result`.
///
/// - `Ok` holds the identity. The identity is not empty, every label was used, and `build`
///   succeeded on the parser that had seen them all.
/// - `EmptyIdentity`: the identity is empty. Nothing was changed.
/// - `UnrecognizedLabel` holds the first label that the parser ignored, after it had used
///   those before. Nothing was changed.
/// - `FinalizeFailed` holds the error of `build`, on the parser that had used every label.
pub open spec fn parsed<P, State, Request>(
    parser: P,
    ctx: Context<State>,
    req: Request,
    username: Seq<char>,
    separator: char,
    ctx_after: Context<State>,
    req_after: Request,
    result: Result<String, UsernameError<P::Error>>,
) -> bool where P: UsernameLabelParser<State, Request> {
    let identity = identity_of(username, separator);
    let labels = labels_of(username, separator);
    match result {
        Ok(name) => {
            &&& identity.len() > 0
            &&& name@ == identity
            &&& exists|last: P| #[trigger]
                fed(parser, &ctx, &req, labels, last) && last.built(
                    ctx,
                    req,
                    ctx_after,
                    req_after,
                    Ok(()),
                )
        },
        Err(UsernameError::MissingIdentity) => false,
        Err(UsernameError::EmptyIdentity) => {
            &&& identity.len() == 0
            &&& ctx_after == ctx
            &&& req_after == req
        },
        Err(UsernameError::UnrecognizedLabel(label)) => {
            &&& identity.len() > 0
            &&& ctx_after == ctx
            &&& req_after == req
            &&& exists|at: int, before: P, after: P|
                {
                    &&& 0 <= at < labels.len()
                    &&& label@ == labels[at]
                    &&& #[trigger] fed(parser, &ctx, &req, labels.take(at), before)
                    &&& #[trigger] before.label_step(
                        &ctx,
                        &req,
                        labels[at],
                        after,
                        UsernameLabelState::Ignored,
                    )
                }
        },
        Err(UsernameError::FinalizeFailed(error)) => {
            &&& identity.len() > 0
            &&& exists|last: P| #[trigger]
                fed(parser, &ctx, &req, labels, last) && last.built(
                    ctx,
                    req,
                    ctx_after,
                    req_after,
                    Err(error),
                )
        },
    }
}

/// Parses a username: returns its identity, after the parser has used every label and has
/// written what it found.
///
/// The username is cut at every `separator`. An empty first segment is refused before the
/// parser sees anything. The parser is then offered the other segments in order; the first
/// one that it ignores ends the call, and `build` is not called. When it has used them all,
/// `build` is called, once.
pub fn parse_username<P, State, Request>(
    ctx: &mut Context<State>,
    request: &mut Request,
    parser: P,
    username: &str,
    separator: char,
) -> (result: Result<String, UsernameError<P::Error>>) where P: UsernameLabelParser<State, Request>
    ensures
        parsed(
            parser,
            *old(ctx),
            *old(request),
            username@,
            separator,
            *final(ctx),
            *final(request),
            result,
        ),
{
    let mut current = parser;
    let ghost labels = labels_of(username@, separator);
    let segments = split_text(username, separator);
    proof {
        crate::text::lemma_split_segments(username@, separator);
    }
    if segments.len() == 0 {
        return Err(UsernameError::MissingIdentity);
    }
    if segments[0].as_str().is_empty() {
        return Err(UsernameError::EmptyIdentity);
    }
    let mut next: usize = 1;
    while next < segments.len()
        invariant
            1 <= next <= segments@.len(),
            texts(segments@) == split(username@, separator),
            segments@.len() == texts(segments@).len(),
            identity_of(username@, separator).len() > 0,
            labels == labels_of(username@, separator),
            *ctx == *old(ctx),
            *request == *old(request),
            fed(parser, &*ctx, &*request, labels.take(next - 1), current),
        decreases segments@.len() - next,
    {
        let label = segments[next].as_str();
        let state = current.parse_label(&*ctx, &*request, label);
        proof {
            let seen = labels.take(next as int);
            assert(seen.drop_last() =~= labels.take(next - 1));
            assert(seen.last() == label@);
        }
        if state == UsernameLabelState::Ignored {
            return Err(UsernameError::UnrecognizedLabel(label.to_owned()));
        }
        next += 1;
    }
    proof {
        assert(labels.take(next - 1) =~= labels);
    }
    let outcome = current.build(ctx, request);
    match outcome {
        Ok(()) => {
            proof {
                lemma_ok_is_unit(outcome);
            }
            Ok(segments[0].clone())
        },
        Err(error) => Err(UsernameError::FinalizeFailed(error)),
    }
}

/// The identity is refused as empty exactly when the username is empty or starts with the
/// separator, whatever the parser is. `MissingIdentity` is never returned.
pub proof fn lemma_empty_identity<P, State, Request>(
    parser: P,
    ctx: Context<State>,
    req: Request,
    username: Seq<char>,
    separator: char,
    ctx_after: Context<State>,
    req_after: Request,
    result: Result<String, UsernameError<P::Error>>,
) where P: UsernameLabelParser<State, Request>
    requires
        parsed(parser, ctx, req, username, separator, ctx_after, req_after, result),
    ensures
        result matches Err(UsernameError::EmptyIdentity) <==> username.len() == 0 || username[0]
            == separator,
        !(result matches Err(UsernameError::MissingIdentity)),
{
    crate::text::lemma_first_segment_empty(username, separator);
}

/// A username that is not empty and holds no separator is its own identity and has no
/// label. Parsing it returns it whole and leaves the outcome to `build` alone: where `build`
/// cannot fail on the parser as it was handed in, the result is the username.
pub proof fn lemma_identity_alone<P, State, Request>(
    parser: P,
    ctx: Context<State>,
    req: Request,
    username: Seq<char>,
    separator: char,
    ctx_after: Context<State>,
    req_after: Request,
    result: Result<String, UsernameError<P::Error>>,
) where P: UsernameLabelParser<State, Request>
    requires
        username.len() > 0,
        !username.contains(separator),
        forall|c: Context<State>, r: Request, error: P::Error|
            !#[trigger] parser.built(ctx, req, c, r, Err(error)),
        parsed(parser, ctx, req, username, separator, ctx_after, req_after, result),
    ensures
        result matches Ok(name) && name@ == username,
        parser.built(ctx, req, ctx_after, req_after, Ok(())),
{
    crate::text::lemma_split_without_separator(username, separator);
    assert(labels_of(username, separator) =~= Seq::<Seq<char>>::empty());
}

/// With a parser that can ignore no label and whose `build` cannot fail, every username
/// whose identity is not empty parses to its identity.
pub proof fn lemma_success_is_owed<P, State, Request>(
    parser: P,
    ctx: Context<State>,
    req: Request,
    username: Seq<char>,
    separator: char,
    ctx_after: Context<State>,
    req_after: Request,
    result: Result<String, UsernameError<P::Error>>,
) where P: UsernameLabelParser<State, Request>
    requires
        identity_of(username, separator).len() > 0,
        forall|before: P, label: Seq<char>, after: P|
            !#[trigger] before.label_step(&ctx, &req, label, after, UsernameLabelState::Ignored),
        forall|last: P, c: Context<State>, r: Request, error: P::Error|
            !#[trigger] last.built(ctx, req, c, r, Err(error)),
        parsed(parser, ctx, req, username, separator, ctx_after, req_after, result),
    ensures
        result matches Ok(name) && name@ == identity_of(username, separator),
{
}

/// The label that is reported as unrecognized is the first one that the parser may ignore:
/// with a parser that can use no label at all, it is the first label of the username, and
/// neither the context nor the request has changed.
pub proof fn lemma_first_label_refused<P, State, Request>(
    parser: P,
    ctx: Context<State>,
    req: Request,
    username: Seq<char>,
    separator: char,
    ctx_after: Context<State>,
    req_after: Request,
    result: Result<String, UsernameError<P::Error>>,
) where P: UsernameLabelParser<State, Request>
    requires
        identity_of(username, separator).len() > 0,
        labels_of(username, separator).len() > 0,
        forall|label: Seq<char>, after: P|
            !#[trigger] parser.label_step(&ctx, &req, label, after, UsernameLabelState::Used),
        parsed(parser, ctx, req, username, separator, ctx_after, req_after, result),
    ensures
        result matches Err(UsernameError::UnrecognizedLabel(label)) && label@ == labels_of(
            username,
            separator,
        )[0],
        ctx_after == ctx,
        req_after == req,
{
    let labels = labels_of(username, separator);
    lemma_fed_first(parser, &ctx, &req, labels);
    match result {
        Err(UsernameError::UnrecognizedLabel(label)) => {
            let (at, before, after) = choose|at: int, before: P, after: P|
                {
                    &&& 0 <= at < labels.len()
                    &&& label@ == labels[at]
                    &&& #[trigger] fed(parser, &ctx, &req, labels.take(at), before)
                    &&& #[trigger] before.label_step(
                        &ctx,
                        &req,
                        labels[at],
                        after,
                        UsernameLabelState::Ignored,
                    )
                };
            if at > 0 {
                lemma_fed_first(parser, &ctx, &req, labels.take(at));
            }
        },
        _ => {},
    }
}

/// Labels that a parser was fed begin with a label that it may use: a chain of steps over a
/// sequence that is not empty starts with a step from the parser itself.
pub proof fn lemma_fed_first<P, State, Request>(
    parser: P,
    ctx: &Context<State>,
    req: &Request,
    labels: Seq<Seq<char>>,
) where P: UsernameLabelParser<State, Request>
    requires
        labels.len() > 0,
    ensures
        forall|last: P| #[trigger]
            fed(parser, ctx, req, labels, last) ==> exists|after: P| #[trigger]
                parser.label_step(ctx, req, labels[0], after, UsernameLabelState::Used),
    decreases labels.len(),
{
    assert forall|last: P| #[trigger] fed(parser, ctx, req, labels, last) implies exists|after: P|
     #[trigger]
        parser.label_step(ctx, req, labels[0], after, UsernameLabelState::Used) by {
        let before = choose|before: P|
            fed(parser, ctx, req, labels.drop_last(), before) && #[trigger] before.label_step(
                ctx,
                req,
                labels.last(),
                last,
                UsernameLabelState::Used,
            );
        if labels.len() > 1 {
            lemma_fed_first(parser, ctx, req, labels.drop_last());
        }
    }
}

} // verus!
