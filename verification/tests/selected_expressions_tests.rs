use postgresql_parser_core::ast::AllColumnsSelectedExpression;
use postgresql_parser_core::ast::ColumnSelectedExpression;
use postgresql_parser_core::ast::Identifier;
use postgresql_parser_core::ast::SelectedExpression;
use postgresql_parser_core::parser::commands::parse_section::ParseCommandSectionResult;
use postgresql_parser_core::parser::commands::sections::selected_expressions::parse_selected_expressions;
use postgresql_parser_core::test_utils::tokens_from_str_vector;

#[test]
fn selected_expressions_basic_column_name() {
    assert_eq!(
        parse_selected_expressions(&tokens_from_str_vector(vec!["firstname"]), 0),
        ParseCommandSectionResult::Valid(
            1,
            vec![SelectedExpression::Column(ColumnSelectedExpression {
                schema_name: None,
                table_name: None,
                column_name: Identifier {
                    quoted: false,
                    value: String::from("firstname")
                }
            })]
        )
    );
}

#[test]
fn selected_expressions_column_name_with_table() {
    assert_eq!(
        parse_selected_expressions(
            &tokens_from_str_vector(vec!["teacher", ".", "firstname"]),
            0
        ),
        ParseCommandSectionResult::Valid(
            3,
            vec![SelectedExpression::Column(ColumnSelectedExpression {
                schema_name: None,
                table_name: Some(Identifier {
                    quoted: false,
                    value: String::from("teacher")
                }),
                column_name: Identifier {
                    quoted: false,
                    value: String::from("firstname")
                }
            })]
        )
    );
}

#[test]
fn selected_expressions_column_name_with_schema() {
    assert_eq!(
        parse_selected_expressions(
            &tokens_from_str_vector(vec!["public", ".", "teacher", ".", "firstname"]),
            0
        ),
        ParseCommandSectionResult::Valid(
            5,
            vec![SelectedExpression::Column(ColumnSelectedExpression {
                schema_name: Some(Identifier {
                    quoted: false,
                    value: String::from("public")
                }),
                table_name: Some(Identifier {
                    quoted: false,
                    value: String::from("teacher")
                }),
                column_name: Identifier {
                    quoted: false,
                    value: String::from("firstname")
                }
            })]
        )
    );
}

#[test]
fn selected_expressions_basic_star() {
    assert_eq!(
        parse_selected_expressions(&tokens_from_str_vector(vec!["*"]), 0),
        ParseCommandSectionResult::Valid(
            1,
            vec![SelectedExpression::AllColumns(
                AllColumnsSelectedExpression {
                    schema_name: None,
                    table_name: None
                }
            )]
        )
    );
}

#[test]
fn selected_expressions_star_with_table() {
    assert_eq!(
        parse_selected_expressions(&tokens_from_str_vector(vec!["teacher", ".", "*"]), 0),
        ParseCommandSectionResult::Valid(
            3,
            vec![SelectedExpression::AllColumns(
                AllColumnsSelectedExpression {
                    schema_name: None,
                    table_name: Some(Identifier {
                        quoted: false,
                        value: String::from("teacher")
                    }),
                }
            )]
        )
    );
}

#[test]
fn selected_expressions_star_with_schema() {
    assert_eq!(
        parse_selected_expressions(
            &tokens_from_str_vector(vec!["public", ".", "teacher", ".", "*"]),
            0
        ),
        ParseCommandSectionResult::Valid(
            5,
            vec![SelectedExpression::AllColumns(
                AllColumnsSelectedExpression {
                    schema_name: Some(Identifier {
                        quoted: false,
                        value: String::from("public")
                    }),
                    table_name: Some(Identifier {
                        quoted: false,
                        value: String::from("teacher")
                    }),
                }
            )]
        )
    );
}

#[test]
fn selected_expressions_multiple_columns() {
    assert_eq!(
        parse_selected_expressions(
            &tokens_from_str_vector(vec!["firstname", ",", " ", "lastname", ",", " ", "*"]),
            0
        ),
        ParseCommandSectionResult::Valid(
            7,
            vec![
                SelectedExpression::Column(ColumnSelectedExpression {
                    schema_name: None,
                    table_name: None,
                    column_name: Identifier {
                        quoted: false,
                        value: String::from("firstname")
                    }
                }),
                SelectedExpression::Column(ColumnSelectedExpression {
                    schema_name: None,
                    table_name: None,
                    column_name: Identifier {
                        quoted: false,
                        value: String::from("lastname")
                    }
                }),
                SelectedExpression::AllColumns(AllColumnsSelectedExpression {
                    schema_name: None,
                    table_name: None
                })
            ]
        )
    );
}

#[test]
fn selected_expressions_complex_multi_column() {
    assert_eq!(
        parse_selected_expressions(
            &tokens_from_str_vector(vec![
                "firstname",
                ",",
                " ",
                "public",
                ".",
                "teacher",
                ".",
                "lastname",
                ",",
                " ",
                "teacher",
                ".",
                "*"
            ]),
            0
        ),
        ParseCommandSectionResult::Valid(
            13,
            vec![
                SelectedExpression::Column(ColumnSelectedExpression {
                    schema_name: None,
                    table_name: None,
                    column_name: Identifier {
                        quoted: false,
                        value: String::from("firstname")
                    }
                }),
                SelectedExpression::Column(ColumnSelectedExpression {
                    schema_name: Some(Identifier {
                        quoted: false,
                        value: String::from("public")
                    }),
                    table_name: Some(Identifier {
                        quoted: false,
                        value: String::from("teacher")
                    }),
                    column_name: Identifier {
                        quoted: false,
                        value: String::from("lastname")
                    }
                }),
                SelectedExpression::AllColumns(AllColumnsSelectedExpression {
                    schema_name: None,
                    table_name: Some(Identifier {
                        quoted: false,
                        value: String::from("teacher")
                    })
                })
            ]
        )
    );
}

#[test]
fn selected_expressions_extra_spaces() {
    assert_eq!(
        parse_selected_expressions(
            &tokens_from_str_vector(vec!["firstname", " \n ", ",", " ", "lastname"]),
            0
        ),
        ParseCommandSectionResult::Valid(
            5,
            vec![
                SelectedExpression::Column(ColumnSelectedExpression {
                    schema_name: None,
                    table_name: None,
                    column_name: Identifier {
                        quoted: false,
                        value: String::from("firstname")
                    }
                }),
                SelectedExpression::Column(ColumnSelectedExpression {
                    schema_name: None,
                    table_name: None,
                    column_name: Identifier {
                        quoted: false,
                        value: String::from("lastname")
                    }
                })
            ]
        )
    );
}

#[test]
fn selected_expressions_should_not_consume_trailing_spaces() {
    assert_eq!(
        parse_selected_expressions(&tokens_from_str_vector(vec!["*", " "]), 0),
        ParseCommandSectionResult::Valid(
            1,
            vec![SelectedExpression::AllColumns(
                AllColumnsSelectedExpression {
                    schema_name: None,
                    table_name: None
                }
            )]
        )
    );
}
