use tickets_rs::interpreter::{quote_literal, AdapterInterpreter, SqlExpression, SqlParsable};
use tickets_rs::interpreter_errors::{
    NewSqlParseError, NewTokenizationError, SqlParseError, TokenizationError,
};
use tickets_rs::interpreter_instructions::{
    AssignedToInstruction, DescriptionContainsInstruction, DueInDaysInstruction,
    FunctionTypeInstruction, InBucketInstruction, Instruction, JoinInstruction,
    TitleContainsInstruction, VerifiableInstruction, WithStateInstruction, WithTagInstruction,
};
use tickets_rs::interpreter_parameters::{
    Literal, Parameter, Variable, VerifiableData, VerifiableDataType,
};

fn session() -> AdapterInterpreter {
    let mut interpreter = AdapterInterpreter::default();
    interpreter.set_variable("me", "biochemist");
    interpreter.set_variable("number", "42");
    interpreter
}

fn compile(text: &str) -> Result<String, SqlParseError> {
    let mut interpreter = session();
    interpreter.try_tokenize(text.to_string()).unwrap();
    interpreter.construct_sql()
}

fn tokenize_error(text: &str) -> String {
    let mut interpreter = session();
    interpreter.try_tokenize(text.to_string()).unwrap_err().message()
}

// ---------------------------------------------------------------------
// rendering and the round trip
// ---------------------------------------------------------------------

#[test]
fn rendering_is_normalized() {
    let mut interpreter = session();
    interpreter
        .try_tokenize("  with_state (  open  )\n\n;;\twith_tag(:: me )due_in_days(7)".to_string())
        .unwrap();
    assert_eq!(interpreter.to_string(), "with_state(open) \n;; \nwith_tag(::me) \ndue_in_days(7)");
}

#[test]
fn rendering_round_trips() {
    let texts = [
        "",
        "   ",
        "with_state(open)",
        "in_bucket(default.bucket)\nwith_tag(documentation);;\nin_bucket(empty.bucket)",
        "assigned_to( a , b ,c) title_contains(some (text) description_contains(::me)",
        "due_in_days(::number);;due_in_days_is_no_keyword",
        "with_state(a);;;;with_state(b)",
    ];
    for text in texts {
        let mut first = session();
        if first.try_tokenize(text.to_string()).is_err() {
            continue;
        }
        let rendered = first.to_string();
        let mut second = session();
        second.try_tokenize(rendered.clone()).unwrap();
        assert_eq!(second.to_string(), rendered);
        assert_eq!(first.construct_sql(), second.construct_sql());
    }
}

#[test]
fn literal_that_begins_like_a_variable_does_not_round_trip() {
    let mut interpreter = session();
    interpreter.try_tokenize("with_state( ::me)".to_string()).unwrap();
    assert_eq!(
        interpreter.construct_sql().unwrap(),
        "SELECT tickets.* FROM tickets WHERE tickets.state_name = '::me';"
    );
    interpreter.try_tokenize("with_state( ::me)".to_string()).unwrap();
    let rendered = interpreter.to_string();
    assert_eq!(rendered, "with_state(::me)");
    interpreter.try_tokenize(rendered).unwrap();
    assert_eq!(
        interpreter.construct_sql().unwrap(),
        "SELECT tickets.* FROM tickets WHERE tickets.state_name = 'biochemist';"
    );
}

#[test]
fn empty_text_tokenizes_to_nothing() {
    let mut interpreter = session();
    assert_eq!(interpreter.try_tokenize(" \n\t ".to_string()), Ok(()));
    assert_eq!(interpreter.get_last_error(), None);
    assert_eq!(interpreter.to_string(), "");
}

// ---------------------------------------------------------------------
// singleton instructions
// ---------------------------------------------------------------------

#[test]
fn singleton_twice_in_one_pass_fails() {
    for keyword in ["title_contains", "description_contains", "due_in_days"] {
        let once = format!("{keyword}(1)");
        let twice = format!("{keyword}(1) with_state(x) {keyword}(2)");
        let mut interpreter = session();
        assert_eq!(interpreter.try_tokenize(once.clone()), Ok(()));
        let failure = interpreter.try_tokenize(twice).unwrap_err().message();
        assert!(failure.contains(&format!("Can't have more than one {keyword}")));
        assert_eq!(interpreter.to_string(), "");
        // each call is a pass of its own: what was used in the failed pass is free again
        assert_eq!(interpreter.try_tokenize(once), Ok(()));
        assert_eq!(interpreter.get_last_error(), None);
    }
}

#[test]
fn singleton_twice_names_the_keyword_exactly() {
    let mut interpreter = session();
    assert!(TitleContainsInstruction::try_tokenize(&mut interpreter, "title_contains(a)".into())
        .is_ok());
    assert!(!interpreter.can_have_title_contains);
    assert_eq!(
        TitleContainsInstruction::try_tokenize(&mut interpreter, "title_contains(b)".into()).err(),
        Some(TokenizationError::new("Can't have more than one title_contains"))
    );
    let mut fresh = session();
    assert!(TitleContainsInstruction::try_tokenize(&mut fresh, "title_contains(b)".into()).is_ok());
}

#[test]
fn tokenizing_begins_a_new_pass() {
    let mut interpreter = session();
    interpreter.can_have_title_contains = false;
    interpreter.can_have_descr_contains = false;
    interpreter.can_have_due_in_days = false;
    assert_eq!(
        interpreter.try_tokenize(
            "title_contains(a) description_contains(b) due_in_days(3)".to_string()
        ),
        Ok(())
    );
    assert!(!interpreter.can_have_title_contains);
    assert!(!interpreter.can_have_descr_contains);
    assert!(!interpreter.can_have_due_in_days);
    assert_eq!(interpreter.try_tokenize("with_state(a)".to_string()), Ok(()));
    assert!(interpreter.can_have_title_contains);
    assert!(interpreter.can_have_descr_contains);
    assert!(interpreter.can_have_due_in_days);
}

#[test]
fn a_failed_argument_claims_nothing() {
    let mut interpreter = session();
    assert!(DueInDaysInstruction::try_tokenize(&mut interpreter, "due_in_days(x)".into()).is_err());
    assert!(interpreter.can_have_due_in_days);
    assert!(DueInDaysInstruction::try_tokenize(&mut interpreter, "due_in_days(1)".into()).is_ok());
    assert!(!interpreter.can_have_due_in_days);
    assert!(DueInDaysInstruction::try_tokenize(&mut interpreter, "due_in_days(2)".into()).is_err());
    assert!(!interpreter.can_have_due_in_days);
}

#[test]
fn repeatable_instructions_repeat() {
    assert_eq!(
        compile("with_state(a) with_state(b) assigned_to(x) assigned_to(y)").unwrap(),
        "SELECT tickets.* FROM tickets WHERE tickets.state_name = 'a' AND tickets.state_name = 'b' \
         AND (tickets.assigned_to = 'x') AND (tickets.assigned_to = 'y');"
    );
}

// ---------------------------------------------------------------------
// compiling without instructions
// ---------------------------------------------------------------------

#[test]
fn compile_before_tokenizing_fails() {
    let mut interpreter = session();
    assert_eq!(
        interpreter.construct_sql(),
        Err(SqlParseError::new(
            "Cannot parse Instruction, because nothing is in Buffer. Did you forget to tokenize first?"
        ))
    );
    assert_eq!(interpreter.try_tokenize("".to_string()), Ok(()));
    assert!(interpreter.construct_sql().unwrap_err()._message().contains("forget to tokenize"));
}

#[test]
fn compile_after_failed_tokenizing_fails() {
    let mut interpreter = session();
    interpreter.try_tokenize("with_state(a)".to_string()).unwrap();
    assert!(interpreter.try_tokenize("with_state(a) nonsense".to_string()).is_err());
    assert!(interpreter.get_last_error().is_some());
    assert_eq!(
        interpreter.construct_sql(),
        Err(SqlParseError::new(
            "Cannot parse Instructions, because there was an Error when Tokenizing."
        ))
    );
    // the failure stays until a tokenization succeeds
    assert!(interpreter.construct_sql().is_err());
    interpreter.try_tokenize("with_state(a)".to_string()).unwrap();
    assert_eq!(interpreter.get_last_error(), None);
    assert!(interpreter.construct_sql().is_ok());
}

#[test]
fn compile_consumes_the_instructions() {
    let mut interpreter = session();
    interpreter.try_tokenize("with_state(a)".to_string()).unwrap();
    assert!(interpreter.construct_sql().is_ok());
    assert_eq!(interpreter.to_string(), "");
    assert!(interpreter.construct_sql().unwrap_err()._message().contains("forget to tokenize"));
}

// ---------------------------------------------------------------------
// separators
// ---------------------------------------------------------------------

#[test]
fn leading_join_fails() {
    for text in [";;", " ;; with_state(a)", ";;;;", ";;with_state(a);;with_tag(b)"] {
        assert_eq!(
            compile(text),
            Err(SqlParseError::new("Join instruction in the beginning is not allowed."))
        );
    }
}

#[test]
fn consecutive_joins_fail() {
    for text in ["with_state(a);;;;", "with_state(a) ;; ;; with_state(b)", "with_tag(t);;in_bucket(b);;;;"] {
        assert_eq!(
            compile(text),
            Err(SqlParseError::new("Can't have more than one ;; after eachother."))
        );
    }
}

#[test]
fn trailing_join_gives_an_empty_segment() {
    assert_eq!(
        compile("with_state(a);;").unwrap(),
        "SELECT tickets.* FROM tickets WHERE tickets.state_name = 'a' UNION SELECT tickets.* FROM tickets;"
    );
}

#[test]
fn a_failing_instruction_drops_those_behind_it() {
    let mut interpreter = session();
    interpreter
        .try_tokenize("with_state(a) due_in_days(::number) with_tag(t) in_bucket(b)".to_string())
        .unwrap();
    interpreter.set_variable("number", "many");
    assert_eq!(
        interpreter.construct_sql(),
        Err(SqlParseError::new("Wasn't able to parse due_in_days because of wrong Parameter Type"))
    );
    assert_eq!(interpreter.to_string(), "");
    assert_eq!(
        interpreter.construct_sql(),
        Err(SqlParseError::new(
            "Cannot parse Instruction, because nothing is in Buffer. Did you forget to tokenize first?"
        ))
    );
}

#[test]
fn a_failed_compile_leaves_no_partial_query() {
    for text in [";; with_state(a)", "with_state(a);;;;with_tag(b)", ";;;;", "with_tag(t) ;; ;; ;;"] {
        let mut interpreter = AdapterInterpreter::default();
        assert_eq!(interpreter.try_tokenize(text.to_string()), Ok(()));
        assert!(interpreter.construct_sql().is_err());
        assert_eq!(interpreter.to_string(), "");
        assert_eq!(interpreter.get_last_error(), None);
        assert_eq!(
            interpreter.construct_sql(),
            Err(SqlParseError::new(
                "Cannot parse Instruction, because nothing is in Buffer. Did you forget to tokenize first?"
            ))
        );
        // a new pass compiles again
        assert_eq!(interpreter.try_tokenize("with_state(a)".to_string()), Ok(()));
        assert_eq!(
            interpreter.construct_sql().unwrap(),
            "SELECT tickets.* FROM tickets WHERE tickets.state_name = 'a';"
        );
    }
}

// ---------------------------------------------------------------------
// what each instruction generates
// ---------------------------------------------------------------------

#[test]
fn sql_of_each_instruction() {
    let select = "SELECT tickets.* FROM ";
    let cases = [
        ("with_state(open)", "tickets WHERE tickets.state_name = 'open';".to_string()),
        (
            "with_tag(bug)",
            "(tickets) JOIN ticket_tags ON tickets.id = ticket_tags.ticket_id WHERE ticket_tags.tag_name = 'bug';"
                .to_string(),
        ),
        (
            "in_bucket(inbox)",
            "(tickets) JOIN buckets ON tickets.bucket_id = buckets.id WHERE buckets.name = 'inbox';"
                .to_string(),
        ),
        ("title_contains(crash)", "tickets WHERE tickets.title LIKE '%crash%';".to_string()),
        (
            "description_contains(stack trace)",
            "tickets WHERE tickets.description LIKE '%stack trace%';".to_string(),
        ),
        (
            "assigned_to(ann, bob ,  cy)",
            "tickets WHERE (tickets.assigned_to = 'ann' OR tickets.assigned_to = 'bob' OR tickets.assigned_to = 'cy');"
                .to_string(),
        ),
        (
            "due_in_days(14)",
            "tickets WHERE tickets.due_at < (SELECT unixepoch('now','start of day','+14 day'));"
                .to_string(),
        ),
        (
            "due_in_days(-3)",
            "tickets WHERE tickets.due_at < (SELECT unixepoch('now','start of day','+-3 day'));"
                .to_string(),
        ),
        (
            "due_in_days(+0007)",
            "tickets WHERE tickets.due_at < (SELECT unixepoch('now','start of day','+7 day'));"
                .to_string(),
        ),
    ];
    for (text, expected) in cases {
        assert_eq!(compile(text).unwrap(), format!("{select}{expected}"));
    }
}

#[test]
fn assigned_to_me_resolves_the_variable() {
    assert_eq!(
        compile("assigned_to(::me)").unwrap(),
        "SELECT tickets.* FROM tickets WHERE (tickets.assigned_to = 'biochemist');"
    );
    let mut interpreter = session();
    let mut sql = AssignedToInstruction::try_tokenize(&mut interpreter, "assigned_to(::me)".into())
        .unwrap()
        .0
        .to_sql(&interpreter, SqlExpression::default())
        .unwrap();
    sql.flush();
    assert_eq!(
        sql.get_final().as_str(),
        "SELECT tickets.* FROM tickets WHERE (tickets.assigned_to = 'biochemist');"
    );
}

#[test]
fn joins_are_not_repeated_within_a_segment() {
    assert_eq!(
        compile("with_tag(a) in_bucket(b) with_tag(c) in_bucket(d);;with_tag(e)").unwrap(),
        "SELECT tickets.* FROM ((tickets) JOIN ticket_tags ON tickets.id = ticket_tags.ticket_id) \
         JOIN buckets ON tickets.bucket_id = buckets.id WHERE ticket_tags.tag_name = 'a' AND \
         buckets.name = 'b' AND ticket_tags.tag_name = 'c' AND buckets.name = 'd' UNION SELECT \
         tickets.* FROM (tickets) JOIN ticket_tags ON tickets.id = ticket_tags.ticket_id WHERE \
         ticket_tags.tag_name = 'e';"
    );
}

#[test]
fn resolved_text_is_interpolated_as_it_is() {
    assert_eq!(quote_literal("it's"), "'it's'");
    assert_eq!(
        compile("with_state(a' OR '1'='1)").unwrap(),
        "SELECT tickets.* FROM tickets WHERE tickets.state_name = 'a' OR '1'='1';"
    );
}

#[test]
fn accumulator_by_hand() {
    let mut sql = SqlExpression::default();
    assert!(sql.is_buffer_empty());
    assert!(sql.is_accumulator_empty());
    sql.add_to_from("a ON x".to_string());
    sql.add_to_from("b ON y".to_string());
    sql.add_to_from("a ON x".to_string());
    assert!(!sql.is_buffer_empty());
    assert!(!sql.is_accumulator_empty());
    sql.flush();
    assert!(sql.is_accumulator_empty());
    assert!(!sql.is_buffer_empty());
    sql.add_to_where("p".to_string());
    sql.add_to_where("q".to_string());
    sql.add_to_where("p".to_string());
    sql.flush();
    sql._add_directly(" LIMIT 1".to_string());
    assert_eq!(
        sql.get_final().as_str(),
        "SELECT tickets.* FROM ((tickets) JOIN a ON x) JOIN b ON y UNION SELECT tickets.* FROM \
         tickets WHERE p AND q AND p LIMIT 1;"
    );
}

// ---------------------------------------------------------------------
// tokenizing: failures
// ---------------------------------------------------------------------

#[test]
fn unknown_variable_names_both_failures() {
    assert_eq!(
        tokenize_error("in_bucket(::nonexistent)"),
        [
            "Expected with_state for Token",
            "Expected with_tag for Token",
            "::nonexistent is not known. or\nNot allowed to interpret :: as Literal",
            "Expected title_contains for Token",
            "Expected description_contains for Token",
            "Expected assigned_to for Token",
            "Expected due_in_days for Token",
            "Expected ;; for Token",
        ]
        .join(" or\n")
    );
}

#[test]
fn number_is_required_for_due_in_days() {
    let mut interpreter = session();
    assert_eq!(
        DueInDaysInstruction::try_tokenize(&mut interpreter, "due_in_days(not_a_number)".into())
            .err(),
        Some(TokenizationError::new("Type of Number required for due_in_days"))
    );
    assert!(tokenize_error("due_in_days(not_a_number)")
        .contains("Type of Number required for due_in_days"));
    assert!(tokenize_error("due_in_days(::me)").contains("Type of Number required for due_in_days"));
}

#[test]
fn every_tokenization_failure() {
    let mut interpreter = session();
    let failures = [
        ("with_statex", "Expected (:: for Variable or\nExpected ( for Literal"),
        ("with_state(::me", "Expected ) for Variable or\nNot allowed to interpret :: as Literal"),
        ("with_state(abc", "Expected (:: for Variable or\nExpected ) for Literal"),
        ("with_state(  )", "Expected (:: for Variable or\n(...) cannot be empty!"),
        ("with_state(::you)", "::you is not known. or\nNot allowed to interpret :: as Literal"),
        ("With_state(a)", "Expected with_state for Token"),
    ];
    for (text, message) in failures {
        assert_eq!(
            WithStateInstruction::try_tokenize(&mut interpreter, text.to_string()).err(),
            Some(TokenizationError::new(message))
        );
    }
    assert_eq!(
        JoinInstruction::try_tokenize(&mut interpreter, ";".to_string()).err(),
        Some(TokenizationError::new("Expected ;; for Token"))
    );
}

#[test]
fn a_failure_drops_what_was_tokenized() {
    let mut interpreter = session();
    let failure = interpreter.try_tokenize("with_state(a) with_tag(b) oops".to_string());
    assert!(failure.is_err());
    assert_eq!(interpreter.get_last_error(), failure.err());
    assert_eq!(interpreter.to_string(), "");
}

#[test]
fn errors_render_as_sentences() {
    assert_eq!(TokenizationError::new("no").to_string(), "An Error Occurred; no.");
    assert_eq!(SqlParseError::new("no".to_string()).to_string(), "An Error Occurred; no.");
    assert_eq!(TokenizationError::new("m").message(), "m");
    assert_eq!(SqlParseError::new("m")._message(), "m");
    assert_eq!(TokenizationError::new("m").clone(), TokenizationError::new("m"));
    assert_eq!(SqlParseError::new("m").clone(), SqlParseError::new("m"));
}

// ---------------------------------------------------------------------
// tokenizing: what is left over
// ---------------------------------------------------------------------

#[test]
fn tokenizing_returns_the_rest() {
    let mut interpreter = session();
    assert_eq!(
        InBucketInstruction::try_tokenize(&mut interpreter, " \n in_bucket \t( a b ) rest)".into())
            .ok()
            .map(|found| found.1),
        Some(" rest)".to_string())
    );
    assert_eq!(
        JoinInstruction::try_tokenize(&mut interpreter, "  ;;;".to_string()).ok(),
        Some((JoinInstruction {}, ";".to_string()))
    );
    assert_eq!(
        Variable::try_tokenize(&mut interpreter, " (:: me ) x".to_string()).ok(),
        Some((Variable::new("me".to_string()), " x".to_string()))
    );
    assert_eq!(
        Literal::try_tokenize(&mut interpreter, "(a(b)c)".to_string()).ok(),
        Some((Literal::new("a(b".to_string()), "c)".to_string()))
    );
    assert_eq!(
        Parameter::try_tokenize(&mut interpreter, "(::number)".to_string()).ok(),
        Some((Parameter::Variable(Variable::new("number".to_string())), "".to_string()))
    );
    assert_eq!(
        Parameter::try_tokenize(&mut interpreter, "( x )".to_string()).ok(),
        Some((Parameter::Literal(Literal::new("x".to_string())), "".to_string()))
    );
}

#[test]
fn instruction_picks_the_kind() {
    let mut interpreter = session();
    let kinds = [
        "with_state(a)",
        "with_tag(a)",
        "in_bucket(a)",
        "title_contains(a)",
        "description_contains(a)",
        "assigned_to(a)",
        "due_in_days(1)",
        ";;",
    ];
    for (index, text) in kinds.iter().enumerate() {
        let (instruction, rest) =
            Instruction::try_tokenize(&mut interpreter, format!("{text}tail")).unwrap();
        assert_eq!(rest, "tail");
        let found = match instruction {
            Instruction::WithState(_) => 0,
            Instruction::WithTag(_) => 1,
            Instruction::InBucket(_) => 2,
            Instruction::TitleContains(_) => 3,
            Instruction::DescriptionContains(_) => 4,
            Instruction::AssignedTo(_) => 5,
            Instruction::DueInDays(_) => 6,
            Instruction::Join(_) => 7,
        };
        assert_eq!(found, index);
    }
}

#[test]
fn unicode_white_space_is_skipped() {
    let mut interpreter = session();
    interpreter
        .try_tokenize("\u{a0}with_state\u{3000}(\u{2003}open\u{85})\u{2028};;\u{1680}with_tag(x)".to_string())
        .unwrap();
    assert_eq!(interpreter.to_string(), "with_state(open) \n;; \nwith_tag(x)");
}

// ---------------------------------------------------------------------
// instructions one by one
// ---------------------------------------------------------------------

#[test]
fn instructions_render_with_their_keyword() {
    let parameter = || Parameter::Literal(Literal::new("x".to_string()));
    assert_eq!(WithStateInstruction::get_instance(parameter()).to_string(), "with_state(x) ");
    assert_eq!(WithTagInstruction::get_instance(parameter()).to_string(), "with_tag(x) ");
    assert_eq!(InBucketInstruction::get_instance(parameter()).to_string(), "in_bucket(x) ");
    assert_eq!(TitleContainsInstruction::get_instance(parameter()).to_string(), "title_contains(x) ");
    assert_eq!(
        DescriptionContainsInstruction::new(parameter()).to_string(),
        "description_contains(x) "
    );
    assert_eq!(AssignedToInstruction { user: parameter() }.to_string(), "assigned_to(x) ");
    assert_eq!(DueInDaysInstruction { days: parameter() }.to_string(), "due_in_days(x) ");
    assert_eq!(JoinInstruction {}.to_string(), ";; ");
    assert_eq!(Instruction::Join(JoinInstruction {}).to_string(), ";; ");
    assert_eq!(
        Instruction::WithTag(WithTagInstruction::get_instance(Parameter::Variable(Variable::new(
            "me".to_string()
        ))))
        .to_string(),
        "with_tag(::me) "
    );
}

#[test]
fn instructions_know_their_kind() {
    assert_eq!(WithStateInstruction::get_function_name(), "with_state");
    assert_eq!(WithTagInstruction::get_function_name(), "with_tag");
    assert_eq!(InBucketInstruction::get_function_name(), "in_bucket");
    assert_eq!(TitleContainsInstruction::get_function_name(), "title_contains");
    assert_eq!(DescriptionContainsInstruction::get_function_name(), "description_contains");
    assert_eq!(AssignedToInstruction::get_function_name(), "assigned_to");
    assert_eq!(DueInDaysInstruction::get_function_name(), "due_in_days");
    assert_eq!(WithStateInstruction::required_parameter_type(), VerifiableDataType::Text);
    assert_eq!(AssignedToInstruction::required_parameter_type(), VerifiableDataType::TextArray);
    assert_eq!(DueInDaysInstruction::required_parameter_type(), VerifiableDataType::Number);
    assert_eq!(VerifiableDataType::Text.get_type_name(), "Text");
    assert_eq!(VerifiableDataType::TextArray.get_type_name(), "TextArray");
    assert_eq!(VerifiableDataType::Number.get_type_name(), "Number");
    assert_eq!(VerifiableDataType::Boolean.get_type_name(), "Boolean");
    let instruction = WithTagInstruction::get_instance(Parameter::Literal(Literal::new("t".into())));
    assert_eq!(instruction.get_content(), &Parameter::Literal(Literal::new("t".into())));
}

#[test]
fn only_a_join_may_not_follow_a_join() {
    let interpreter = session();
    let join = || Instruction::Join(JoinInstruction {});
    let state = || {
        Instruction::WithState(WithStateInstruction::get_instance(Parameter::Literal(
            Literal::new("a".to_string()),
        )))
    };
    assert!(!JoinInstruction {}.is_valid_after(&interpreter, join()));
    assert!(JoinInstruction {}.is_valid_after(&interpreter, state()));
    assert!(!join().is_valid_after(&interpreter, join()));
    assert!(join().is_valid_after(&interpreter, state()));
    assert!(state().is_valid_after(&interpreter, join()));
    assert!(state().is_valid_after(&interpreter, state()));
}

#[test]
fn join_by_hand() {
    let interpreter = session();
    let join = JoinInstruction {};
    assert_eq!(
        join.to_sql(&interpreter, SqlExpression::default()).err(),
        Some(SqlParseError::new("Join instruction in the beginning is not allowed."))
    );
    let mut sql = SqlExpression::default();
    sql.add_to_where("p".to_string());
    let mut sql = join.to_sql(&interpreter, sql).ok().unwrap();
    assert_eq!(
        join.to_sql(&interpreter, SqlExpression::default()).is_err(),
        Instruction::Join(JoinInstruction {}).to_sql(&interpreter, SqlExpression::default()).is_err()
    );
    assert_eq!(sql.get_final().as_str(), "SELECT tickets.* FROM tickets WHERE p;");
}

// ---------------------------------------------------------------------
// resolving parameters
// ---------------------------------------------------------------------

fn literal(text: &str) -> Parameter {
    Parameter::Literal(Literal::new(text.to_string()))
}

fn variable(name: &str) -> Parameter {
    Parameter::Variable(Variable::new(name.to_string()))
}

#[test]
fn text_of_parameters() {
    let interpreter = session();
    assert_eq!(literal("a, b").get_text(&interpreter), Some("a, b".to_string()));
    assert_eq!(variable("me").get_text(&interpreter), Some("biochemist".to_string()));
    assert_eq!(variable("you").get_text(&interpreter), None);
    assert_eq!(literal("x").to_string(), "(x) ");
    assert_eq!(variable("x").to_string(), "(::x) ");
    assert_eq!(Literal::new("x".into()).to_string(), "(x) ");
    assert_eq!(Variable::new("x".into()).to_string(), "(::x) ");
}

#[test]
fn text_arrays_of_parameters() {
    let mut interpreter = session();
    interpreter.set_variable("team", " ann ,bob,, cy ");
    let strings = |texts: &[&str]| Some(texts.iter().map(|text| text.to_string()).collect::<Vec<_>>());
    assert_eq!(literal("a").get_text_array(&interpreter), strings(&["a"]));
    assert_eq!(literal("").get_text_array(&interpreter), strings(&[""]));
    assert_eq!(literal(",").get_text_array(&interpreter), strings(&["", ""]));
    assert_eq!(literal("a,b , c,").get_text_array(&interpreter), strings(&["a", "b", "c", ""]));
    assert_eq!(variable("team").get_text_array(&interpreter), strings(&["ann", "bob", "", "cy"]));
    assert_eq!(variable("nobody").get_text_array(&interpreter), None);
}

#[test]
fn numbers_of_parameters() {
    let mut interpreter = session();
    interpreter.set_variable("padded", " 5");
    let cases = [
        ("0", Some(0)),
        ("-0", Some(0)),
        ("+12", Some(12)),
        ("007", Some(7)),
        ("2147483647", Some(i32::MAX)),
        ("2147483648", None),
        ("-2147483648", Some(i32::MIN)),
        ("-2147483649", None),
        ("00000000000000000000000000012", Some(12)),
        ("99999999999999999999999999999", None),
        ("", None),
        ("-", None),
        ("+", None),
        ("+-1", None),
        ("1_000", None),
        ("12a", None),
        (" 5", None),
        ("١٢", None),
    ];
    for (text, expected) in cases {
        assert_eq!(literal(text).get_number(&interpreter), expected);
        assert_eq!(text.parse::<i32>().ok(), expected);
    }
    assert_eq!(variable("number").get_number(&interpreter), Some(42));
    assert_eq!(variable("padded").get_number(&interpreter), None);
    assert_eq!(variable("me").get_number(&interpreter), None);
    assert_eq!(variable("nothing").get_number(&interpreter), None);
}

#[test]
fn truth_values_of_parameters() {
    let mut interpreter = session();
    interpreter.set_variable("flag", " Yes ");
    for word in ["yes", "YES", " true\n", "True", "1", "\t1 "] {
        assert_eq!(literal(word).get_boolean(&interpreter), Some(true));
    }
    for word in ["no", "No", "false", " FALSE ", "0"] {
        assert_eq!(literal(word).get_boolean(&interpreter), Some(false));
    }
    for word in ["", "y", "n", "2", "yes please", "tru e", "on", "\u{212a}"] {
        assert_eq!(literal(word).get_boolean(&interpreter), None);
    }
    assert_eq!(variable("flag").get_boolean(&interpreter), Some(true));
    assert_eq!(variable("me").get_boolean(&interpreter), None);
    assert_eq!(variable("nothing").get_boolean(&interpreter), None);
}

#[test]
fn types_of_parameters() {
    let interpreter = session();
    assert!(literal("x").is_valid_type(&interpreter, VerifiableDataType::Text));
    assert!(literal("x").is_valid_type(&interpreter, VerifiableDataType::TextArray));
    assert!(!literal("x").is_valid_type(&interpreter, VerifiableDataType::Number));
    assert!(!literal("x").is_valid_type(&interpreter, VerifiableDataType::Boolean));
    assert!(literal("1").is_valid_type(&interpreter, VerifiableDataType::Number));
    assert!(literal("1").is_valid_type(&interpreter, VerifiableDataType::Boolean));
    assert!(variable("number").is_valid_type(&interpreter, VerifiableDataType::Number));
    assert!(!variable("gone").is_valid_type(&interpreter, VerifiableDataType::Text));
    assert!(!variable("gone").is_valid_type(&interpreter, VerifiableDataType::TextArray));
    assert!(Literal::new("no".into()).is_valid_type(&interpreter, VerifiableDataType::Boolean));
    assert!(Variable::new("me".into()).is_valid_type(&interpreter, VerifiableDataType::Text));
}

#[test]
fn variables_of_the_session() {
    let mut interpreter = AdapterInterpreter::default();
    assert!(!interpreter.has_variable(&"me".to_string()));
    assert_eq!(interpreter.get_variable(&"me".to_string()), None);
    interpreter.set_variable("me", "first");
    interpreter.set_variable("me", "second");
    interpreter.set_variable("", "nameless");
    assert!(interpreter.has_variable(&"me".to_string()));
    assert_eq!(interpreter.get_variable(&"me".to_string()), Some(&"second".to_string()));
    assert_eq!(interpreter.get_variable(&"".to_string()), Some(&"nameless".to_string()));
    interpreter.try_tokenize("with_state(::)".to_string()).unwrap();
    assert_eq!(
        interpreter.construct_sql().unwrap(),
        "SELECT tickets.* FROM tickets WHERE tickets.state_name = 'nameless';"
    );
}

#[test]
fn errors_compare_as_their_messages() {
    let messages = ["", "a", "A", "ab", "b", "Expected", "expected", "ä", "z"];
    for first in messages {
        for second in messages {
            let (left, right) = (TokenizationError::new(first), TokenizationError::new(second));
            assert_eq!(left == right, first == second);
            assert_eq!(left.partial_cmp(&right), first.partial_cmp(second));
            assert_eq!(left.partial_cmp(&right), Some(left.cmp(&right)));
            assert_eq!(left < right, first < second);
            let (left, right) = (SqlParseError::new(first), SqlParseError::new(second));
            assert_eq!(left == right, first == second);
            assert_eq!(left.partial_cmp(&right), first.partial_cmp(second));
            assert_eq!(left.partial_cmp(&right), Some(left.cmp(&right)));
            assert_eq!(left >= right, first >= second);
        }
    }
}
