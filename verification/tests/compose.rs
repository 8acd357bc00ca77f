use rama::compose::ExclusiveUsernameParsers;
use rama::compose::IndexedBuildError;
use rama::compose::PairBuildError;
use rama::compose::TripleBuildError;
use rama::context::Context;
use rama::parsers::UsernameLabelParserVoid;
use rama::parsers::UsernameLabels;
use rama::parsers::UsernameOpaqueLabelParser;
use rama::username::parse_username;
use rama::username::UsernameError;
use rama::username::UsernameLabelParser;
use rama::username::UsernameLabelParserLayer;
use rama::username::UsernameLabelState;
use std::sync::Arc;
use std::sync::Mutex;

/// What the members of a composition did, in the order in which they did it.
type Journal = Arc<Mutex<Vec<String>>>;

/// Uses the labels that start with its prefix. Writes every call into the journal, and
/// fails in `build` if it was told to.
struct PrefixParser {
    name: &'static str,
    prefix: &'static str,
    fails: bool,
    journal: Journal,
}

impl PrefixParser {
    fn new(name: &'static str, prefix: &'static str, journal: &Journal) -> Self {
        PrefixParser {
            name,
            prefix,
            fails: false,
            journal: journal.clone(),
        }
    }

    fn failing(name: &'static str, prefix: &'static str, journal: &Journal) -> Self {
        PrefixParser {
            name,
            prefix,
            fails: true,
            journal: journal.clone(),
        }
    }
}

impl<State, Request> UsernameLabelParser<State, Request> for PrefixParser {
    type Error = &'static str;

    fn parse_label(
        &mut self,
        _ctx: &Context<State>,
        _req: &Request,
        label: &str,
    ) -> UsernameLabelState {
        self.journal
            .lock()
            .unwrap()
            .push(format!("{} sees {}", self.name, label));
        if label.starts_with(self.prefix) {
            UsernameLabelState::Used
        } else {
            UsernameLabelState::Ignored
        }
    }

    fn build(self, _ctx: &mut Context<State>, _req: &mut Request) -> Result<(), Self::Error> {
        self.journal
            .lock()
            .unwrap()
            .push(format!("{} builds", self.name));
        if self.fails {
            Err(self.name)
        } else {
            Ok(())
        }
    }
}

/// Makes a `PrefixParser` for each request.
struct PrefixLayer {
    name: &'static str,
    prefix: &'static str,
    journal: Journal,
}

impl<State, Request> UsernameLabelParserLayer<State, Request> for PrefixLayer {
    type Parser = PrefixParser;

    fn create_parser(&self, _ctx: &Context<State>, _req: &Request) -> Self::Parser {
        PrefixParser::new(self.name, self.prefix, &self.journal)
    }
}

fn journal() -> Journal {
    Arc::new(Mutex::new(Vec::new()))
}

fn entries(journal: &Journal) -> Vec<String> {
    journal.lock().unwrap().clone()
}

fn lines(lines: &[&str]) -> Vec<String> {
    lines.iter().map(|line| line.to_string()).collect()
}

#[test]
fn test_pair_offers_every_label_to_both() {
    let ctx = Context::default();
    let req = ();
    let seen = journal();
    let mut parser = (
        PrefixParser::new("a", "x", &seen),
        PrefixParser::new("b", "y", &seen),
    );

    assert_eq!(parser.parse_label(&ctx, &req, "x1"), UsernameLabelState::Used);
    assert_eq!(parser.parse_label(&ctx, &req, "y1"), UsernameLabelState::Used);
    assert_eq!(parser.parse_label(&ctx, &req, "z1"), UsernameLabelState::Ignored);

    assert_eq!(
        entries(&seen),
        lines(&[
            "a sees x1",
            "b sees x1",
            "a sees y1",
            "b sees y1",
            "a sees z1",
            "b sees z1"
        ])
    );
}

#[test]
fn test_pair_used_by_both_is_used() {
    let ctx = Context::default();
    let req = ();
    let seen = journal();
    let mut parser = (
        PrefixParser::new("a", "x", &seen),
        PrefixParser::new("b", "x", &seen),
    );

    assert_eq!(parser.parse_label(&ctx, &req, "x1"), UsernameLabelState::Used);
    assert_eq!(entries(&seen), lines(&["a sees x1", "b sees x1"]));
}

#[test]
fn test_triple_offers_every_label_to_all() {
    let ctx = Context::default();
    let req = ();
    let seen = journal();
    let mut parser = (
        PrefixParser::new("a", "x", &seen),
        PrefixParser::new("b", "y", &seen),
        PrefixParser::new("c", "z", &seen),
    );

    assert_eq!(parser.parse_label(&ctx, &req, "x1"), UsernameLabelState::Used);
    assert_eq!(parser.parse_label(&ctx, &req, "z1"), UsernameLabelState::Used);
    assert_eq!(parser.parse_label(&ctx, &req, "w1"), UsernameLabelState::Ignored);

    assert_eq!(
        entries(&seen),
        lines(&[
            "a sees x1",
            "b sees x1",
            "c sees x1",
            "a sees z1",
            "b sees z1",
            "c sees z1",
            "a sees w1",
            "b sees w1",
            "c sees w1"
        ])
    );
}

#[test]
fn test_exclusive_pair_stops_at_first_user() {
    let ctx = Context::default();
    let req = ();
    let seen = journal();
    let mut parser = ExclusiveUsernameParsers((
        PrefixParser::new("a", "x", &seen),
        PrefixParser::new("b", "", &seen),
    ));

    assert_eq!(parser.parse_label(&ctx, &req, "x1"), UsernameLabelState::Used);
    assert_eq!(parser.parse_label(&ctx, &req, "y1"), UsernameLabelState::Used);

    assert_eq!(
        entries(&seen),
        lines(&["a sees x1", "a sees y1", "b sees y1"])
    );
}

#[test]
fn test_exclusive_pair_ignored_by_both() {
    let ctx = Context::default();
    let req = ();
    let seen = journal();
    let mut parser = ExclusiveUsernameParsers((
        PrefixParser::new("a", "x", &seen),
        PrefixParser::new("b", "y", &seen),
    ));

    assert_eq!(parser.parse_label(&ctx, &req, "z1"), UsernameLabelState::Ignored);
    assert_eq!(entries(&seen), lines(&["a sees z1", "b sees z1"]));
}

#[test]
fn test_exclusive_triple_stops_at_first_user() {
    let ctx = Context::default();
    let req = ();
    let seen = journal();
    let mut parser = ExclusiveUsernameParsers((
        PrefixParser::new("a", "x", &seen),
        PrefixParser::new("b", "y", &seen),
        PrefixParser::new("c", "", &seen),
    ));

    assert_eq!(parser.parse_label(&ctx, &req, "x1"), UsernameLabelState::Used);
    assert_eq!(parser.parse_label(&ctx, &req, "y1"), UsernameLabelState::Used);
    assert_eq!(parser.parse_label(&ctx, &req, "z1"), UsernameLabelState::Used);

    assert_eq!(
        entries(&seen),
        lines(&[
            "a sees x1",
            "a sees y1",
            "b sees y1",
            "a sees z1",
            "b sees z1",
            "c sees z1"
        ])
    );
}

#[test]
fn test_exclusive_collector_last_sees_only_what_is_left() {
    let mut ctx = Context::default();
    let mut req = ();
    let seen = journal();
    let parser = ExclusiveUsernameParsers((
        PrefixParser::new("a", "country", &seen),
        UsernameOpaqueLabelParser::new(),
    ));

    assert_eq!(
        parse_username(&mut ctx, &mut req, parser, "john-country_us-mobile-country_be-x", '-'),
        Ok("john".to_owned())
    );
    assert_eq!(
        ctx.get::<UsernameLabels>().unwrap().0,
        vec!["mobile".to_owned(), "x".to_owned()]
    );
}

#[test]
fn test_pair_build_runs_in_order() {
    let mut ctx = Context::default();
    let mut req = ();
    let seen = journal();
    let parser = (
        PrefixParser::new("a", "x", &seen),
        PrefixParser::new("b", "y", &seen),
    );

    assert_eq!(parser.build(&mut ctx, &mut req), Ok(()));
    assert_eq!(entries(&seen), lines(&["a builds", "b builds"]));
}

#[test]
fn test_pair_build_first_failure_aborts() {
    let mut ctx = Context::default();
    let mut req = ();
    let seen = journal();
    let parser = (
        PrefixParser::failing("a", "x", &seen),
        PrefixParser::new("b", "y", &seen),
    );

    assert_eq!(
        parser.build(&mut ctx, &mut req),
        Err(PairBuildError::First("a"))
    );
    assert_eq!(entries(&seen), lines(&["a builds"]));
}

#[test]
fn test_pair_build_second_failure_keeps_what_first_wrote() {
    let mut ctx = Context::default();
    let mut req = ();
    let seen = journal();
    let mut parser = (
        UsernameOpaqueLabelParser::new(),
        PrefixParser::failing("b", "y", &seen),
    );

    assert_eq!(parser.parse_label(&ctx, &req, "x1"), UsernameLabelState::Used);
    assert_eq!(
        parser.build(&mut ctx, &mut req),
        Err(PairBuildError::Second("b"))
    );
    assert_eq!(
        ctx.get::<UsernameLabels>().unwrap().0,
        vec!["x1".to_owned()]
    );
}

#[test]
fn test_exclusive_pair_build_builds_every_member() {
    let mut ctx = Context::default();
    let mut req = ();
    let seen = journal();
    let parser = ExclusiveUsernameParsers((
        PrefixParser::new("a", "x", &seen),
        PrefixParser::failing("b", "y", &seen),
    ));

    assert_eq!(
        parser.build(&mut ctx, &mut req),
        Err(PairBuildError::Second("b"))
    );
    assert_eq!(entries(&seen), lines(&["a builds", "b builds"]));
}

#[test]
fn test_triple_build_failures() {
    let mut ctx = Context::default();
    let mut req = ();

    let seen = journal();
    let parser = (
        PrefixParser::failing("a", "x", &seen),
        PrefixParser::failing("b", "y", &seen),
        PrefixParser::failing("c", "z", &seen),
    );
    assert_eq!(
        parser.build(&mut ctx, &mut req),
        Err(TripleBuildError::First("a"))
    );
    assert_eq!(entries(&seen), lines(&["a builds"]));

    let seen = journal();
    let parser = (
        PrefixParser::new("a", "x", &seen),
        PrefixParser::failing("b", "y", &seen),
        PrefixParser::failing("c", "z", &seen),
    );
    assert_eq!(
        parser.build(&mut ctx, &mut req),
        Err(TripleBuildError::Second("b"))
    );
    assert_eq!(entries(&seen), lines(&["a builds", "b builds"]));

    let seen = journal();
    let parser = ExclusiveUsernameParsers((
        PrefixParser::new("a", "x", &seen),
        PrefixParser::new("b", "y", &seen),
        PrefixParser::failing("c", "z", &seen),
    ));
    assert_eq!(
        parser.build(&mut ctx, &mut req),
        Err(TripleBuildError::Third("c"))
    );
    assert_eq!(
        entries(&seen),
        lines(&["a builds", "b builds", "c builds"])
    );

    let seen = journal();
    let parser = (
        PrefixParser::new("a", "x", &seen),
        PrefixParser::new("b", "y", &seen),
        PrefixParser::new("c", "z", &seen),
    );
    assert_eq!(parser.build(&mut ctx, &mut req), Ok(()));
    assert_eq!(
        entries(&seen),
        lines(&["a builds", "b builds", "c builds"])
    );
}

#[test]
fn test_parse_username_reports_failing_member() {
    let mut ctx = Context::default();
    let mut req = ();
    let seen = journal();
    let parser = (
        UsernameLabelParserVoid::new(),
        PrefixParser::failing("b", "y", &seen),
    );

    assert_eq!(
        parse_username(&mut ctx, &mut req, parser, "john-x1", '-'),
        Err(UsernameError::FinalizeFailed(PairBuildError::Second("b")))
    );
    assert_eq!(entries(&seen), lines(&["b sees x1", "b builds"]));
}

#[test]
fn test_nested_tuples_compose_any_number() {
    let ctx = Context::default();
    let req = ();
    let seen = journal();
    let mut parser = (
        PrefixParser::new("a", "w", &seen),
        (
            PrefixParser::new("b", "x", &seen),
            ExclusiveUsernameParsers((
                PrefixParser::new("c", "y", &seen),
                PrefixParser::new("d", "y", &seen),
            )),
        ),
    );

    assert_eq!(parser.parse_label(&ctx, &req, "y1"), UsernameLabelState::Used);
    assert_eq!(parser.parse_label(&ctx, &req, "z1"), UsernameLabelState::Ignored);
    assert_eq!(
        entries(&seen),
        lines(&[
            "a sees y1",
            "b sees y1",
            "c sees y1",
            "a sees z1",
            "b sees z1",
            "c sees z1",
            "d sees z1"
        ])
    );
}

#[test]
fn test_vec_offers_every_label_to_all() {
    let ctx = Context::default();
    let req = ();
    let seen = journal();
    let mut parser = vec![
        PrefixParser::new("a", "x", &seen),
        PrefixParser::new("b", "y", &seen),
        PrefixParser::new("c", "x", &seen),
        PrefixParser::new("d", "z", &seen),
    ];

    assert_eq!(parser.parse_label(&ctx, &req, "x1"), UsernameLabelState::Used);
    assert_eq!(parser.parse_label(&ctx, &req, "w1"), UsernameLabelState::Ignored);
    assert_eq!(
        entries(&seen),
        lines(&[
            "a sees x1",
            "b sees x1",
            "c sees x1",
            "d sees x1",
            "a sees w1",
            "b sees w1",
            "c sees w1",
            "d sees w1"
        ])
    );
}

#[test]
fn test_vec_without_members_ignores_and_builds() {
    let mut ctx = Context::default();
    let mut req = ();
    let mut parser: Vec<PrefixParser> = Vec::new();

    assert_eq!(parser.parse_label(&ctx, &req, "x1"), UsernameLabelState::Ignored);
    assert_eq!(parser.build(&mut ctx, &mut req), Ok(()));

    let mut parser: ExclusiveUsernameParsers<Vec<PrefixParser>> =
        ExclusiveUsernameParsers(Vec::new());
    assert_eq!(parser.parse_label(&ctx, &req, "x1"), UsernameLabelState::Ignored);
    assert_eq!(parser.build(&mut ctx, &mut req), Ok(()));
}

#[test]
fn test_exclusive_vec_stops_at_first_user() {
    let ctx = Context::default();
    let req = ();
    let seen = journal();
    let mut parser = ExclusiveUsernameParsers(vec![
        PrefixParser::new("a", "x", &seen),
        PrefixParser::new("b", "y", &seen),
        PrefixParser::new("c", "y", &seen),
        PrefixParser::new("d", "z", &seen),
    ]);

    assert_eq!(parser.parse_label(&ctx, &req, "y1"), UsernameLabelState::Used);
    assert_eq!(parser.parse_label(&ctx, &req, "x1"), UsernameLabelState::Used);
    assert_eq!(parser.parse_label(&ctx, &req, "w1"), UsernameLabelState::Ignored);
    assert_eq!(
        entries(&seen),
        lines(&[
            "a sees y1",
            "b sees y1",
            "a sees x1",
            "a sees w1",
            "b sees w1",
            "c sees w1",
            "d sees w1"
        ])
    );
}

#[test]
fn test_vec_build_stops_at_first_failure() {
    let mut ctx = Context::default();
    let mut req = ();
    let seen = journal();
    let parser = vec![
        PrefixParser::new("a", "x", &seen),
        PrefixParser::new("b", "y", &seen),
        PrefixParser::failing("c", "x", &seen),
        PrefixParser::failing("d", "z", &seen),
    ];

    assert_eq!(
        parser.build(&mut ctx, &mut req),
        Err(IndexedBuildError {
            index: 2,
            error: "c"
        })
    );
    assert_eq!(
        entries(&seen),
        lines(&["a builds", "b builds", "c builds"])
    );
}

#[test]
fn test_exclusive_vec_build_builds_all_in_order() {
    let mut ctx = Context::default();
    let mut req = ();
    let seen = journal();
    let parser = ExclusiveUsernameParsers(vec![
        PrefixParser::new("a", "x", &seen),
        PrefixParser::new("b", "y", &seen),
        PrefixParser::new("c", "x", &seen),
    ]);

    assert_eq!(parser.build(&mut ctx, &mut req), Ok(()));
    assert_eq!(
        entries(&seen),
        lines(&["a builds", "b builds", "c builds"])
    );

    let parser = ExclusiveUsernameParsers(vec![PrefixParser::failing("a", "x", &seen)]);
    assert_eq!(
        parser.build(&mut ctx, &mut req),
        Err(IndexedBuildError {
            index: 0,
            error: "a"
        })
    );
}

#[test]
fn test_layers_create_fresh_parsers() {
    let mut ctx = Context::default();
    let mut req = ();

    let mut used = UsernameOpaqueLabelParser::new();
    assert_eq!(used.parse_label(&ctx, &req, "old"), UsernameLabelState::Used);
    let layer = (UsernameLabelParserVoid::new(), used);
    let parser = layer.create_parser(&ctx, &req);

    assert_eq!(
        parse_username(&mut ctx, &mut req, parser, "john-a-b", '-'),
        Ok("john".to_owned())
    );
    assert_eq!(
        ctx.get::<UsernameLabels>().unwrap().0,
        vec!["a".to_owned(), "b".to_owned()]
    );
}

#[test]
fn test_layers_of_every_shape() {
    let ctx = Context::default();
    let req = ();
    let seen = journal();
    let layer = |name: &'static str, prefix: &'static str| PrefixLayer {
        name,
        prefix,
        journal: seen.clone(),
    };

    let mut pair = (layer("a", "x"), layer("b", "")).create_parser(&ctx, &req);
    assert_eq!(pair.parse_label(&ctx, &req, "x1"), UsernameLabelState::Used);
    let mut triple = (layer("c", "x"), layer("d", "x"), layer("e", "")).create_parser(&ctx, &req);
    assert_eq!(triple.parse_label(&ctx, &req, "x2"), UsernameLabelState::Used);
    let mut exclusive_pair =
        ExclusiveUsernameParsers((layer("f", "x"), layer("g", ""))).create_parser(&ctx, &req);
    assert_eq!(
        exclusive_pair.parse_label(&ctx, &req, "x3"),
        UsernameLabelState::Used
    );
    let mut exclusive_triple =
        ExclusiveUsernameParsers((layer("h", "y"), layer("i", "x"), layer("j", "")))
            .create_parser(&ctx, &req);
    assert_eq!(
        exclusive_triple.parse_label(&ctx, &req, "x4"),
        UsernameLabelState::Used
    );
    let mut many = vec![layer("k", "x"), layer("l", "")].create_parser(&ctx, &req);
    assert_eq!(many.parse_label(&ctx, &req, "x5"), UsernameLabelState::Used);
    let mut exclusive_many =
        ExclusiveUsernameParsers(vec![layer("m", "x"), layer("n", "")]).create_parser(&ctx, &req);
    assert_eq!(
        exclusive_many.parse_label(&ctx, &req, "x6"),
        UsernameLabelState::Used
    );

    assert_eq!(
        entries(&seen),
        lines(&[
            "a sees x1",
            "b sees x1",
            "c sees x2",
            "d sees x2",
            "e sees x2",
            "f sees x3",
            "h sees x4",
            "i sees x4",
            "k sees x5",
            "l sees x5",
            "m sees x6"
        ])
    );
}
