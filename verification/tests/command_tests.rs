use postgresql_parser_core::ast::AllColumnsSelectedExpression;
use postgresql_parser_core::ast::ColumnSelectedExpression;
use postgresql_parser_core::ast::Command;
use postgresql_parser_core::ast::DataManipulationCommand;
use postgresql_parser_core::ast::EmptyCommand;
use postgresql_parser_core::ast::FromItem;
use postgresql_parser_core::ast::Identifier;
use postgresql_parser_core::ast::PostgresqlAbstractSyntaxTree;
use postgresql_parser_core::ast::SelectCommand;
use postgresql_parser_core::ast::SelectedExpression;
use postgresql_parser_core::is_valid_postgresql;
use postgresql_parser_core::lexer::tokenize_postgresql;
use postgresql_parser_core::parse_postgresql;
use postgresql_parser_core::parser::commands::empty::parse_empty_command;
use postgresql_parser_core::parser::commands::parse_section::ParseCommandSectionResult;
use postgresql_parser_core::parser::commands::sections::selected_expressions::parse_selected_expressions;
use postgresql_parser_core::parser::commands::select::parse_select_command;
use postgresql_parser_core::parser::parse_command_result::ParseCommandResult;
use postgresql_parser_core::parser::parse_postgresql_tokens;
use postgresql_parser_core::test_utils::tokens_from_str_vector;

fn name(value: &str) -> Identifier {
    Identifier {
        quoted: false,
        value: String::from(value),
    }
}

fn all_columns(schema_name: Option<&str>, table_name: Option<&str>) -> SelectedExpression {
    SelectedExpression::AllColumns(AllColumnsSelectedExpression {
        schema_name: schema_name.map(name),
        table_name: table_name.map(name),
    })
}

fn column(
    schema_name: Option<&str>,
    table_name: Option<&str>,
    column_name: &str,
) -> SelectedExpression {
    SelectedExpression::Column(ColumnSelectedExpression {
        schema_name: schema_name.map(name),
        table_name: table_name.map(name),
        column_name: name(column_name),
    })
}

fn select(
    selected_expressions: Vec<SelectedExpression>,
    schema_name: Option<&str>,
    table_name: &str,
) -> Command {
    Command::DataManipulation(DataManipulationCommand::Select(SelectCommand {
        selected_expressions,
        from_item: FromItem {
            schema_name: schema_name.map(name),
            table_name: name(table_name),
        },
    }))
}

fn empty() -> Command {
    Command::Empty(EmptyCommand {})
}

fn commands_of(text: &str) -> Vec<Command> {
    parse_postgresql(text).commands
}

#[test]
fn tree_is_built_command_by_command() {
    assert_eq!(PostgresqlAbstractSyntaxTree::new().commands, vec![]);
    let tree = PostgresqlAbstractSyntaxTree::new()
        .push_command(empty())
        .push_command(select(vec![all_columns(None, None)], None, "t"));
    assert_eq!(
        tree,
        PostgresqlAbstractSyntaxTree::from_commands(vec![
            empty(),
            select(vec![all_columns(None, None)], None, "t"),
        ])
    );
    assert_eq!(tree.commands.len(), 2);
}

#[test]
fn empty_command_takes_no_token() {
    let tokens = tokens_from_str_vector(vec![";", "x"]);
    assert_eq!(
        parse_empty_command(&tokens, 1),
        ParseCommandResult::Valid(empty(), 1)
    );
    assert_eq!(
        parse_empty_command(&tokens, 7),
        ParseCommandResult::Valid(empty(), 7)
    );
}

#[test]
fn empty_commands_in_a_row() {
    assert_eq!(commands_of(";;"), vec![empty(), empty()]);
    assert_eq!(commands_of("; ;\n;"), vec![empty(), empty(), empty()]);
}

#[test]
fn command_directly_behind_a_semicolon() {
    assert_eq!(
        commands_of(";select * from foo;"),
        vec![empty(), select(vec![all_columns(None, None)], None, "foo")]
    );
    assert_eq!(
        commands_of("select * from foo;select a from b;"),
        vec![
            select(vec![all_columns(None, None)], None, "foo"),
            select(vec![column(None, None, "a")], None, "b"),
        ]
    );
}

#[test]
fn keywords_in_upper_case() {
    assert_eq!(
        commands_of("SELECT * FROM foo;"),
        vec![select(vec![all_columns(None, None)], None, "foo")]
    );
    assert_eq!(
        commands_of("SeLeCt Name fRoM Foo;"),
        vec![select(vec![column(None, None, "Name")], None, "Foo")]
    );
}

#[test]
fn multi_expression_select() {
    assert_eq!(
        commands_of("select firstname, teacher.lastname, teacher.* from public.teacher;"),
        vec![select(
            vec![
                column(None, None, "firstname"),
                column(None, Some("teacher"), "lastname"),
                all_columns(None, Some("teacher")),
            ],
            Some("public"),
            "teacher"
        )]
    );
}

#[test]
fn schema_qualified_expressions() {
    assert_eq!(
        commands_of("select s.t.c, s.t.* from x;"),
        vec![select(
            vec![
                column(Some("s"), Some("t"), "c"),
                all_columns(Some("s"), Some("t")),
            ],
            None,
            "x"
        )]
    );
}

#[test]
fn error_recovery_drops_only_the_bad_command() {
    assert_eq!(
        commands_of("select * from foo.; select * from bar;"),
        vec![select(vec![all_columns(None, None)], None, "bar")]
    );
    assert_eq!(
        commands_of("nonsense here; ; select * from bar; more nonsense;;"),
        vec![
            empty(),
            select(vec![all_columns(None, None)], None, "bar"),
            empty(),
        ]
    );
}

#[test]
fn command_cut_short_ends_the_parse() {
    assert_eq!(commands_of("; select * from"), vec![empty()]);
    assert_eq!(commands_of("; select"), vec![empty()]);
    assert_eq!(commands_of("; select * from foo"), vec![empty()]);
    assert_eq!(commands_of("select a,"), vec![]);
    assert_eq!(commands_of("   "), vec![]);
}

#[test]
fn malformed_command_without_semicolon_ends_the_parse() {
    assert_eq!(commands_of("; nonsense"), vec![empty()]);
    assert_eq!(commands_of("select * frm foo"), vec![]);
}

#[test]
fn star_is_a_wildcard_in_the_last_place_only() {
    assert_eq!(commands_of("select *.a from foo;"), vec![]);
    assert_eq!(commands_of("select a.*.b from foo;"), vec![]);
    assert_eq!(commands_of("select * from *;"), vec![]);
}

#[test]
fn quotes_with_nothing_between_them_are_a_name() {
    assert_eq!(
        commands_of("select \"\" from \"\".t;"),
        vec![Command::DataManipulation(DataManipulationCommand::Select(
            SelectCommand {
                selected_expressions: vec![SelectedExpression::Column(
                    ColumnSelectedExpression {
                        schema_name: None,
                        table_name: None,
                        column_name: Identifier {
                            quoted: true,
                            value: String::new(),
                        },
                    }
                )],
                from_item: FromItem {
                    schema_name: Some(Identifier {
                        quoted: true,
                        value: String::new(),
                    }),
                    table_name: name("t"),
                },
            }
        ))]
    );
    assert_eq!(commands_of("select \" from t;"), vec![]);
}

#[test]
fn four_part_names_are_rejected() {
    assert_eq!(commands_of("select a.b.c.d from foo;"), vec![]);
    assert_eq!(commands_of("select a from b.c.d;"), vec![]);
}

#[test]
fn whitespace_tolerance() {
    let minimal = commands_of("select a,b.c,d.* from e.f;");
    assert_eq!(
        minimal,
        vec![select(
            vec![
                column(None, None, "a"),
                column(None, Some("b"), "c"),
                all_columns(None, Some("d")),
            ],
            Some("e"),
            "f"
        )]
    );
    assert_eq!(
        commands_of("  select \n\n a ,\tb.c\n,\n  d.*   from\t\te.f   ;  "),
        minimal
    );
    assert_eq!(
        commands_of("\nselect\ta , b.c , d.*\nfrom\ne.f\n;\n"),
        minimal
    );
}

#[test]
fn whitespace_of_any_kind_reads_alike() {
    let spaces = parse_postgresql_tokens(tokens_from_str_vector(vec![
        " ", "select", " ", "a", " ", ",", " ", "b", " ", "from", " ", "c", " ", ";",
    ]));
    let others = parse_postgresql_tokens(tokens_from_str_vector(vec![
        "\n\n", "select", "\t", "a", "\n \t", ",", " \n", "b", "  ", "from", "\t\t", "c", "\n",
        ";",
    ]));
    assert_eq!(spaces, others);
    assert_eq!(
        spaces.commands,
        vec![select(
            vec![column(None, None, "a"), column(None, None, "b")],
            None,
            "c"
        )]
    );
}

#[test]
fn whitespace_next_to_a_dot_breaks_the_name() {
    assert_eq!(commands_of("select a. b from c;"), vec![]);
    assert_eq!(commands_of("select a .b from c;"), vec![]);
    assert_eq!(commands_of("select a from b. c;"), vec![]);
}

#[test]
fn whitespace_is_needed_around_keywords() {
    assert_eq!(commands_of("select* from foo;"), vec![]);
    assert_eq!(commands_of("select \"a\"from foo;"), vec![]);
}

#[test]
fn select_command_is_read_behind_its_keyword() {
    let tokens = tokenize_postgresql("select * from foo ; rest");
    assert_eq!(
        parse_select_command(&tokens, 1),
        ParseCommandResult::Valid(select(vec![all_columns(None, None)], None, "foo"), 9)
    );
}

#[test]
fn select_command_says_where_to_go_on() {
    let tokens = tokenize_postgresql("select * frm foo; select");
    assert_eq!(parse_select_command(&tokens, 1), ParseCommandResult::Invalid(8));
    let tokens = tokenize_postgresql("select * from 1; x");
    assert_eq!(parse_select_command(&tokens, 1), ParseCommandResult::Invalid(8));
    let tokens = tokenize_postgresql("select * from foo");
    assert_eq!(parse_select_command(&tokens, 1), ParseCommandResult::EndOfInput);
    let tokens = tokenize_postgresql("select * from foo x");
    assert_eq!(parse_select_command(&tokens, 1), ParseCommandResult::Invalid(10));
}

#[test]
fn selected_expressions_stop_at_a_missing_expression() {
    assert_eq!(
        parse_selected_expressions(&tokens_from_str_vector(vec!["a", ",", " "]), 0),
        ParseCommandSectionResult::EndOfInput
    );
    assert_eq!(
        parse_selected_expressions(&tokens_from_str_vector(vec!["a", ",", ".", "b"]), 0),
        ParseCommandSectionResult::Invalid
    );
    assert_eq!(
        parse_selected_expressions(&tokens_from_str_vector(vec![]), 0),
        ParseCommandSectionResult::EndOfInput
    );
}

#[test]
fn text_with_a_command_is_valid() {
    assert!(is_valid_postgresql(";"));
    assert!(is_valid_postgresql("select * from foo;"));
    assert!(is_valid_postgresql("nonsense; select * from foo;"));
    assert!(!is_valid_postgresql(""));
    assert!(!is_valid_postgresql("   "));
    assert!(!is_valid_postgresql("select * from foo"));
    assert!(!is_valid_postgresql("nonsense;"));
}
