use plc::{parse, Ast, CompilerError, Term, Wanted};

#[test]
fn parse_positive_int() {
    let source = "42";
    let exp = Ast {
        terms: vec![Term::Int(42)],
    };
    let act = parse(source);
    assert!(act.is_ok());
    let act = act.unwrap();
    assert_eq!(exp, act);
}

#[test]
fn parse_negative_int() {
    let source = "-42";
    let exp = Ast {
        terms: vec![Term::Int(-42)],
    };
    let act = parse(source);
    assert!(act.is_ok());
    let act = act.unwrap();
    assert_eq!(exp, act);
}

#[test]
fn parse_add() {
    let source = "+";
    let exp = Ast {
        terms: vec![Term::Add],
    };
    let act = parse(source);
    assert!(act.is_ok());
    let act = act.unwrap();
    assert_eq!(exp, act);
}

#[test]
fn parse_mul() {
    let source = "*";
    let exp = Ast {
        terms: vec![Term::Mul],
    };
    let act = parse(source);
    assert!(act.is_ok());
    let act = act.unwrap();
    assert_eq!(exp, act);
}

#[test]
fn parse_sub() {
    let source = "-";
    let exp = Ast {
        terms: vec![Term::Sub],
    };
    let act = parse(source);
    assert!(act.is_ok());
    let act = act.unwrap();
    assert_eq!(exp, act);
}

#[test]
fn parse_div() {
    let source = "/";
    let exp = Ast {
        terms: vec![Term::Div],
    };
    let act = parse(source);
    assert!(act.is_ok());
    let act = act.unwrap();
    assert_eq!(exp, act);
}

#[test]
fn parse_print() {
    let source = ".";
    let exp = Ast {
        terms: vec![Term::Print],
    };
    let act = parse(source);
    assert!(act.is_ok());
    let act = act.unwrap();
    assert_eq!(exp, act);
}

#[test]
fn correct_opcode_seq_1() {
    let source = "-42-";
    let exp = Ast {
        terms: vec![Term::Int(-42), Term::Sub],
    };
    let act = parse(source);
    assert!(act.is_ok());
    let act = act.unwrap();
    assert_eq!(exp, act);
}

#[test]
fn correct_opcode_seq_2() {
    let source = "-+42";
    let exp = Ast {
        terms: vec![Term::Sub, Term::Int(42)],
    };
    let act = parse(source);
    assert!(act.is_ok());
    let act = act.unwrap();
    assert_eq!(exp, act);
}

#[test]
fn correct_opcode_seq_3() {
    let source = "42.0";
    let exp = Ast {
        terms: vec![Term::Int(42), Term::Print, Term::Int(0)],
    };
    let act = parse(source);
    assert!(act.is_ok());
    let act = act.unwrap();
    assert_eq!(exp, act);
}

#[test]
fn parser__2_plus_3_sum_and_print() {
    let source = "2 3 + .";
    let exp = Ast {
        terms: vec![Term::Int(2), Term::Int(3), Term::Add, Term::Print],
    };
    let act = parse(source);
    assert!(act.is_ok());
    let act = act.unwrap();
    assert_eq!(exp, act);
}

#[test]
fn empty() {
    let source = "";
    let exp = Ast { terms: vec![] };
    let act = parse(source);
    assert!(act.is_ok());
    let act = act.unwrap();
    assert_eq!(exp, act);
}

#[test]
fn positive_int() {
    let source = "42";
    let exp = Ast {
        terms: vec![Term::Int(42)],
    };
    let act = parse(source);
    assert!(act.is_ok());
    let act = act.unwrap();
    assert_eq!(exp, act);
}

#[test]
fn negative_int() {
    let source = "-42";
    let exp = Ast {
        terms: vec![Term::Int(-42)],
    };
    let act = parse(source);
    assert!(act.is_ok());
    let act = act.unwrap();
    assert_eq!(exp, act);
}

#[test]
fn add() {
    let source = "+";
    let exp = Ast {
        terms: vec![Term::Add],
    };
    let act = parse(source);
    assert!(act.is_ok());
    let act = act.unwrap();
    assert_eq!(exp, act);
}

#[test]
fn mul() {
    let source = "*";
    let exp = Ast {
        terms: vec![Term::Mul],
    };
    let act = parse(source);
    assert!(act.is_ok());
    let act = act.unwrap();
    assert_eq!(exp, act);
}

#[test]
fn sub() {
    let source = "-";
    let exp = Ast {
        terms: vec![Term::Sub],
    };
    let act = parse(source);
    assert!(act.is_ok());
    let act = act.unwrap();
    assert_eq!(exp, act);
}

#[test]
fn div() {
    let source = "/";
    let exp = Ast {
        terms: vec![Term::Div],
    };
    let act = parse(source);
    assert!(act.is_ok());
    let act = act.unwrap();
    assert_eq!(exp, act);
}

#[test]
fn print() {
    let source = ".";
    let exp = Ast {
        terms: vec![Term::Print],
    };
    let act = parse(source);
    assert!(act.is_ok());
    let act = act.unwrap();
    assert_eq!(exp, act);
}

#[test]
fn dup() {
    let source = "dup";
    let exp = Ast {
        terms: vec![Term::Dup],
    };
    let act = parse(source);
    assert!(act.is_ok());
    let act = act.unwrap();
    assert_eq!(exp, act);
}

#[test]
fn drop() {
    let source = "drop";
    let exp = Ast {
        terms: vec![Term::Drop],
    };
    let act = parse(source);
    assert!(act.is_ok());
    let act = act.unwrap();
    assert_eq!(exp, act);
}

#[test]
fn take() {
    let source = "take";
    let exp = Ast {
        terms: vec![Term::Take],
    };
    let act = parse(source);
    assert!(act.is_ok());
    let act = act.unwrap();
    assert_eq!(exp, act);
}

#[test]
fn newline_at_the_end() {
    let source = "1\n";
    let exp = Ast {
        terms: vec![Term::Int(1)],
    };
    let act = parse(source);
    assert!(act.is_ok());
    let act = act.unwrap();
    assert_eq!(exp, act);
}

#[test]
fn multiline_code() {
    let source = "1\n
        60";
    let exp = Ast {
        terms: vec![Term::Int(1), Term::Int(60)],
    };
    let act = parse(source);
    assert!(act.is_ok());
    let act = act.unwrap();
    assert_eq!(exp, act);
}

#[test]
fn only_comment() {
    let source = "# a comment";
    let exp = Ast { terms: vec![] };
    let act = parse(source);
    assert!(act.is_ok());
    let act = act.unwrap();
    assert_eq!(exp, act);
}

#[test]
fn comment_after_op() {
    let source = "1 # a comment";
    let exp = Ast {
        terms: vec![Term::Int(1)],
    };
    let act = parse(source);
    assert!(act.is_ok());
    let act = act.unwrap();
    assert_eq!(exp, act);
}

#[test]
fn comment_before_op() {
    let source = "# a comment
        1";
    let exp = Ast {
        terms: vec![Term::Int(1)],
    };
    let act = parse(source);
    assert!(act.is_ok());
    let act = act.unwrap();
    assert_eq!(exp, act);
}

#[test]
fn comment_between_op() {
    let source = "2 # a comment
        1";
    let exp = Ast {
        terms: vec![Term::Int(2), Term::Int(1)],
    };
    let act = parse(source);
    assert!(act.is_ok());
    let act = act.unwrap();
    assert_eq!(exp, act);
}

#[test]
fn mod__2_plus_3_sum_and_print() {
    let source = "2 3 + .";
    let exp = Ast {
        terms: vec![Term::Int(2), Term::Int(3), Term::Add, Term::Print],
    };
    let act = parse(source);
    assert!(act.is_ok());
    let act = act.unwrap();
    assert_eq!(exp, act);
}

#[test]
fn empty_list() {
    let source = "[]";
    let exp = Ast {
        terms: vec![Term::List { terms: vec![] }],
    };
    let act = parse(source);
    assert!(act.is_ok());
    let act = act.unwrap();
    assert_eq!(exp, act);
}

#[test]
fn list_with_terms() {
    let source = "[1 .]";
    let exp = Ast {
        terms: vec![Term::List {
            terms: vec![Term::Int(1), Term::Print],
        }],
    };
    let act = parse(source);
    assert!(act.is_ok());
    let act = act.unwrap();
    assert_eq!(exp, act);
}

#[test]
fn list_with_terms_between_terms() {
    let source = "+ [1 .] -";
    let exp = Ast {
        terms: vec![
            Term::Add,
            Term::List {
                terms: vec![Term::Int(1), Term::Print],
            },
            Term::Sub,
        ],
    };
    let act = parse(source);
    assert!(act.is_ok());
    let act = act.unwrap();
    assert_eq!(exp, act);
}

#[test]
fn apply() {
    let source = "!";
    let exp = Ast {
        terms: vec![Term::Apply],
    };
    let act = parse(source);
    assert!(act.is_ok());
    let act = act.unwrap();
    assert_eq!(exp, act);
}

#[test]
fn list_apply() {
    let source = "[5 .]!";
    let exp = Ast {
        terms: vec![
            Term::List {
                terms: vec![Term::Int(5), Term::Print],
            },
            Term::Apply,
        ],
    };
    let act = parse(source);
    assert!(act.is_ok());
    let act = act.unwrap();
    assert_eq!(exp, act);
}

#[test]
fn and() {
    let source = "and";
    let exp = Ast {
        terms: vec![Term::And],
    };
    let act = parse(source);
    assert!(act.is_ok());
    let act = act.unwrap();
    assert_eq!(exp, act);
}

#[test]
fn or() {
    let source = "or";
    let exp = Ast {
        terms: vec![Term::Or],
    };
    let act = parse(source);
    assert!(act.is_ok());
    let act = act.unwrap();
    assert_eq!(exp, act);
}

#[test]
fn equals() {
    let source = "==";
    let exp = Ast {
        terms: vec![Term::Equals],
    };
    let act = parse(source);
    assert!(act.is_ok());
    let act = act.unwrap();
    assert_eq!(exp, act);
}

#[test]
fn not_equals() {
    let source = "!=";
    let exp = Ast {
        terms: vec![Term::NotEquals],
    };
    let act = parse(source);
    assert!(act.is_ok());
    let act = act.unwrap();
    assert_eq!(exp, act);
}

#[test]
fn less() {
    let source = "<";
    let exp = Ast {
        terms: vec![Term::Less],
    };
    let act = parse(source);
    assert!(act.is_ok());
    let act = act.unwrap();
    assert_eq!(exp, act);
}

#[test]
fn less_equals() {
    let source = "<=";
    let exp = Ast {
        terms: vec![Term::LessEquals],
    };
    let act = parse(source);
    assert!(act.is_ok());
    let act = act.unwrap();
    assert_eq!(exp, act);
}

#[test]
fn greater() {
    let source = ">";
    let exp = Ast {
        terms: vec![Term::Greater],
    };
    let act = parse(source);
    assert!(act.is_ok());
    let act = act.unwrap();
    assert_eq!(exp, act);
}

#[test]
fn greater_equals() {
    let source = ">=";
    let exp = Ast {
        terms: vec![Term::GreaterEquals],
    };
    let act = parse(source);
    assert!(act.is_ok());
    let act = act.unwrap();
    assert_eq!(exp, act);
}

#[test]
fn _if() {
    let source = "?";
    let exp = Ast {
        terms: vec![Term::If],
    };
    let act = parse(source);
    assert!(act.is_ok());
    let act = act.unwrap();
    assert_eq!(exp, act);
}

#[test]
fn not() {
    let source = "not";
    let exp = Ast {
        terms: vec![Term::Not],
    };
    let act = parse(source);
    assert!(act.is_ok());
    let act = act.unwrap();
    assert_eq!(exp, act);
}

#[test]
fn bool() {
    let source = "b";
    let exp = Ast {
        terms: vec![Term::Bool],
    };
    let act = parse(source);
    assert!(act.is_ok());
    let act = act.unwrap();
    assert_eq!(exp, act);
}

#[test]
fn bind() {
    let source = ":test123";
    let exp = Ast {
        terms: vec![Term::Bind {
            identifier: "test123".to_string(),
        }],
    };
    let act = parse(source);
    assert!(act.is_ok());
    let act = act.unwrap();
    assert_eq!(exp, act);
}

#[test]
fn bind_begins_with_keyword() {
    let source = ":andTest";
    let exp = Ast {
        terms: vec![Term::Bind {
            identifier: "andTest".to_string(),
        }],
    };
    let act = parse(source);
    assert!(act.is_ok());
    let act = act.unwrap();
    assert_eq!(exp, act);
}

#[test]
fn bind_wrong_identifier_forbidden_char() {
    let source = ":1test123";
    let act = parse(source);
    assert!(act.is_err());
}

#[test]
fn bind_wrong_identifier_keyword() {
    let source = ":and";
    let act = parse(source);
    assert!(act.is_err());
}

#[test]
fn bind_wrong_identifier_keyword_() {
    let source = ":and!";
    let act = parse(source);
    println!("{:?}", act);
    assert!(act.is_err());
}

#[test]
fn call() {
    let source = "test123";
    let exp = Ast {
        terms: vec![Term::Put {
            identifier: "test123".to_string(),
        }],
    };
    let act = parse(source);
    assert!(act.is_ok());
    let act = act.unwrap();
    assert_eq!(exp, act);
}

#[test]
fn it_works() {
    let result = 2 + 2;
    assert_eq!(result, 4);
}

#[test]
fn extreme_integers_parse() {
    assert_eq!(parse("-2147483648").unwrap(), Ast { terms: vec![Term::Int(i32::MIN)] });
    assert_eq!(parse("2147483647").unwrap(), Ast { terms: vec![Term::Int(i32::MAX)] });
    assert_eq!(parse("+5").unwrap(), Ast { terms: vec![Term::Int(5)] });
    assert_eq!(parse("-0").unwrap(), Ast { terms: vec![Term::Int(0)] });
    assert_eq!(parse("007").unwrap(), Ast { terms: vec![Term::Int(7)] });
}

#[test]
fn decimal_text_of_integers_parses_back() {
    for n in [0, 1, -1, 9, 10, -10, 12345, -98765, i32::MAX, i32::MIN, i32::MAX - 1, i32::MIN + 1] {
        assert_eq!(parse(&n.to_string()).unwrap(), Ast { terms: vec![Term::Int(n)] });
    }
}

#[test]
fn integers_out_of_range_are_rejected() {
    assert!(parse("2147483648").is_err());
    assert!(parse("-2147483649").is_err());
    assert!(parse("99999999999999999999999").is_err());
}

#[test]
fn comment_is_inert() {
    assert_eq!(parse("1 2 # 5 * \n+ .").unwrap(), parse("1 2 + .").unwrap());
}

#[test]
fn blank_sources_are_empty_programs() {
    assert_eq!(parse("# only a comment").unwrap(), Ast { terms: vec![] });
    assert_eq!(parse(" \t\r\n").unwrap(), Ast { terms: vec![] });
    assert_eq!(parse("# one\n# two\n").unwrap(), Ast { terms: vec![] });
}

#[test]
fn error_keeps_source_and_position() {
    match parse("1 2 ]") {
        Err(CompilerError::ParserError { source, position, .. }) => {
            assert_eq!(source, "1 2 ]");
            assert_eq!(position, 4);
        }
        _ => panic!("expected a parse error"),
    }
    match parse("[1 2") {
        Err(CompilerError::ParserError { position, .. }) => assert_eq!(position, 0),
        _ => panic!("expected a parse error"),
    }
    match parse("é :and") {
        Err(CompilerError::ParserError { position, .. }) => assert_eq!(position, 2),
        _ => panic!("expected a parse error"),
    }
}

#[test]
fn words_that_start_with_keywords_are_identifiers() {
    let put = |s: &str| Term::Put { identifier: s.to_string() };
    assert_eq!(parse("andTest").unwrap(), Ast { terms: vec![put("andTest")] });
    assert_eq!(parse("b1").unwrap(), Ast { terms: vec![put("b1")] });
    assert_eq!(parse("_x dupe").unwrap(), Ast { terms: vec![put("_x"), put("dupe")] });
    assert_eq!(parse("größe").unwrap(), Ast { terms: vec![put("größe")] });
}

#[test]
fn adjacent_terms_without_separator() {
    assert_eq!(parse("10b").unwrap(), Ast { terms: vec![Term::Int(10), Term::Bool] });
    assert_eq!(
        parse("foo!").unwrap(),
        Ast { terms: vec![Term::Put { identifier: "foo".to_string() }, Term::Apply] }
    );
    assert_eq!(parse("1<=2").unwrap(), Ast { terms: vec![Term::Int(1), Term::LessEquals, Term::Int(2)] });
    assert_eq!(parse("!!=").unwrap(), Ast { terms: vec![Term::Apply, Term::NotEquals] });
}

#[test]
fn invalid_characters_are_rejected() {
    assert!(parse("=").is_err());
    assert!(parse(":").is_err());
    assert!(parse(": x").is_err());
    assert!(parse("]").is_err());
    assert!(parse("1 $").is_err());
}

#[test]
fn nested_lists_parse() {
    assert_eq!(
        parse("[ [ 1 ] ] ! !").unwrap(),
        Ast {
            terms: vec![
                Term::List { terms: vec![Term::List { terms: vec![Term::Int(1)] }] },
                Term::Apply,
                Term::Apply,
            ]
        }
    );
}

#[test]
fn error_trace_goes_into_lists() {
    match parse("1 [ 2 [ 3 $ ] ] 4") {
        Err(CompilerError::ParserError { position, trace, .. }) => {
            assert_eq!(position, 2);
            assert_eq!(
                trace,
                vec![(10, Wanted::TermOrBracket), (6, Wanted::TermOrBracket), (2, Wanted::TermOrEnd)]
            );
        }
        _ => panic!("expected a parse error"),
    }
    match parse("[ 1") {
        Err(CompilerError::ParserError { trace, .. }) => {
            assert_eq!(trace, vec![(3, Wanted::TermOrBracket), (0, Wanted::TermOrEnd)]);
        }
        _ => panic!("expected a parse error"),
    }
    match parse("1 ?? =") {
        Err(CompilerError::ParserError { trace, .. }) => {
            assert_eq!(trace, vec![(5, Wanted::TermOrEnd)]);
        }
        _ => panic!("expected a parse error"),
    }
}
