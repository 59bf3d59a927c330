use rush::env::variables::Variables;
use rush::lang::ast::{
    Command, CommandGroup, ConditionOperator, Function, IoOperation, RedirectDestination,
};
use rush::lang::parser::{parse_commandline, split_words};
use rush::lang::word::{unescape, Expansion, Progress, Token, Word};

fn slice(text: &str) -> Token {
    Token::Slice(text.to_string())
}

fn variable(name: &str) -> Token {
    Token::Variable(name.to_string())
}

fn word(parts: Vec<Token>) -> Word {
    Word::from(parts)
}

/// Expands a word whose expressions all have the value `seven`.
fn expand(w: &Word, vars: &Variables) -> (String, Vec<String>) {
    let mut expansion = w.compile();
    let mut asked = Vec::new();
    let mut value: Option<String> = None;
    loop {
        match expansion.resume(vars, value.as_deref()) {
            Progress::Done(text) => return (text, asked),
            Progress::Evaluate(expr) => {
                asked.push(expr.to_text());
                value = Some("seven".to_string());
            }
            Progress::Failed(e) => panic!("failed to read an expression: {}", e.message()),
        }
    }
}

#[test]
fn words_are_read_part_by_part() {
    assert_eq!(Word::parse("true"), word(vec![slice("true")]));
    assert_eq!(Word::parse(""), word(vec![]));
    assert_eq!(Word::parse("two words"), word(vec![slice("two")]));
    assert_eq!(
        Word::parse("a$b\\nc"),
        word(vec![slice("a"), variable("b"), Token::Escape('n'), slice("c")])
    );
    assert_eq!(
        Word::parse("$EXPAND_ENV_VARS_TEST"),
        word(vec![variable("EXPAND_ENV_VARS_TEST")])
    );
    assert_eq!(Word::parse("$x1"), word(vec![variable("x"), slice("1")]));
    assert_eq!(Word::parse("$"), word(vec![variable("")]));
    assert_eq!(
        Word::parse("'rush-%s$ '"),
        word(vec![Token::Quoted(word(vec![slice("rush-%s$ ")]))])
    );
    assert_eq!(
        Word::parse("\"a $b \\\" c\"d"),
        word(vec![
            Token::Quoted(word(vec![
                slice("a "),
                variable("b"),
                slice(" "),
                Token::Escape('"'),
                slice(" c"),
            ])),
            slice("d"),
        ])
    );
    assert_eq!(Word::parse("\"open"), word(vec![]));
    assert_eq!(Word::parse("a|b"), word(vec![slice("a")]));
    assert_eq!(Word::parse("a>b"), word(vec![slice("a")]));
    assert_eq!(Word::parse("a\\qb"), word(vec![slice("a")]));
}

#[test]
fn expressions_are_read_to_their_end() {
    assert_eq!(
        Word::parse("$((1 + 2))"),
        word(vec![Token::Expr(word(vec![slice("1 + 2")]))])
    );
    assert_eq!(
        Word::parse("n=$(( (a + $b) * 2 ))!"),
        word(vec![
            slice("n="),
            Token::Expr(word(vec![
                slice(" "),
                slice("("),
                slice("a + "),
                variable("b"),
                slice(")"),
                slice(" * 2 "),
            ])),
            slice("!"),
        ])
    );
    assert_eq!(
        Word::parse("$(($((1)) + \"2\"))"),
        word(vec![Token::Expr(word(vec![
            Token::Expr(word(vec![slice("1")])),
            slice(" + "),
            Token::Quoted(word(vec![slice("2")])),
        ]))])
    );
    assert_eq!(
        Word::parse("$((1 + 2)"),
        word(vec![variable(""), slice("((1")])
    );
}

#[test]
fn escapes_stand_for_characters() {
    assert_eq!(unescape('n'), '\n');
    assert_eq!(unescape('t'), '\t');
    for c in ['\\', '"', '\'', ' ', '$', '|', '`', '&', '{', '}', '\n'] {
        assert_eq!(unescape(c), c);
    }
    assert_eq!(unescape('q'), '\u{FFFD}');
    assert_eq!(unescape('0'), '\u{FFFD}');
}

#[test]
fn words_expand_from_left_to_right() {
    let mut vars = Variables::new();
    vars.define("HOME", "/home/me");
    vars.define("x", "value");
    let w = word(vec![
        Token::Tilde,
        slice("/"),
        variable("x"),
        variable("unset"),
        Token::Escape('t'),
        Token::Quoted(word(vec![slice("a b"), variable("x")])),
        Token::Escape('?'),
    ]);
    assert_eq!(
        expand(&w, &vars),
        ("/home/me/value\ta bvalue\u{FFFD}".to_string(), vec![])
    );
    assert_eq!(expand(&Word::new(), &vars), (String::new(), vec![]));
    assert_eq!(expand(&Word::literal("as it is"), &vars).0, "as it is");
}

#[test]
fn expressions_are_handed_out_with_their_text_expanded() {
    let mut vars = Variables::new();
    vars.define("x", "4");
    let w = Word::parse("a$(($x + $((x * 2)) ))b$((1))");
    let (text, asked) = expand(&w, &vars);
    assert_eq!(asked, vec!["x * 2", "4 + seven", "1"]);
    assert_eq!(text, "asevenbseven");
}

#[test]
fn unreadable_expression_fails() {
    let vars = Variables::new();
    let mut expansion = Expansion::new(&Word::parse("$((1 +))"));
    match expansion.resume(&vars, None) {
        Progress::Failed(e) => {
            assert_eq!(e.kind(), &rush::expr::errors::ErrorKind::UnexpectedEof)
        }
        _ => panic!("read what is no expression"),
    }
}

fn simple(words: &[&str]) -> Command {
    Command::simple(words.iter().map(|w| Word::parse(w)).collect())
}

#[test]
fn command_lines_are_read() {
    assert_eq!(Command::from(""), Command::group(vec![]));
    assert_eq!(
        Command::from("true"),
        Command::group(vec![simple(&["true"])])
    );
    assert_eq!(
        Command::from("  printf  '%s\\n'  $x ;false\n\n true & "),
        Command::group(vec![
            simple(&["printf", "'%s\\n'", "$x"]),
            simple(&["false"]),
            simple(&["true"]),
        ])
    );
    assert_eq!(
        Command::from("a | b | c"),
        Command::group(vec![Command::pipeline(
            false,
            Command::pipeline(false, simple(&["a"]), simple(&["b"])),
            simple(&["c"]),
        )])
    );
    assert_eq!(
        Command::from("! a | b"),
        Command::group(vec![Command::pipeline(true, simple(&["a"]), simple(&["b"]))])
    );
    assert_eq!(
        Command::from("a && b | c || d"),
        Command::group(vec![Command::conditional(
            Command::conditional(
                simple(&["a"]),
                ConditionOperator::AndIf,
                Command::pipeline(false, simple(&["b"]), simple(&["c"])),
            ),
            ConditionOperator::OrIf,
            simple(&["d"]),
        )])
    );
}

#[test]
fn groups_functions_and_comments_are_read() {
    assert_eq!(
        Command::from("{ a; b } | c"),
        Command::group(vec![Command::pipeline(
            false,
            Command::group(vec![simple(&["a"]), simple(&["b"])]),
            simple(&["c"]),
        )])
    );
    assert_eq!(
        Command::from("function f { printf hello }; f"),
        Command::group(vec![
            Command::Function(Box::new(Function {
                name: Word::parse("f"),
                body: Command::Group(Box::new(CommandGroup {
                    commands: vec![simple(&["printf", "hello"])],
                })),
            })),
            simple(&["f"]),
        ])
    );
    assert_eq!(
        Command::from("# a comment | not a pipe\ntrue"),
        Command::group(vec![
            Command::Comment(" a comment | not a pipe".to_string()),
            simple(&["true"]),
        ])
    );
    assert_eq!(
        parse_commandline("true } false"),
        (Command::group(vec![simple(&["true"])]), 5)
    );
    assert_eq!(parse_commandline("{ true").1, 0);
}

#[test]
fn redirections_are_read() {
    assert_eq!(
        Command::from("a > out 2>> log < in 2>&1 <&3 >| x 0<> y <<- z << w >"),
        Command::group(vec![Command::redirect(
            simple(&["a"]),
            vec![
                RedirectDestination::new(IoOperation::OutputCreate, None, Some(Word::parse("out"))),
                RedirectDestination::new(
                    IoOperation::OutputAppend,
                    Some(2),
                    Some(Word::parse("log"))
                ),
                RedirectDestination::new(IoOperation::Input, None, Some(Word::parse("in"))),
                RedirectDestination::new(IoOperation::OutputDupFd, Some(2), Some(Word::parse("1"))),
                RedirectDestination::new(IoOperation::InputDupFd, None, Some(Word::parse("3"))),
                RedirectDestination::new(IoOperation::Output, None, Some(Word::parse("x"))),
                RedirectDestination::new(IoOperation::ReadWrite, Some(0), Some(Word::parse("y"))),
                RedirectDestination::new(
                    IoOperation::HereDocumentStrip,
                    None,
                    Some(Word::parse("z"))
                ),
                RedirectDestination::new(IoOperation::HereDocument, None, Some(Word::parse("w"))),
                RedirectDestination::new(IoOperation::OutputCreate, None, None),
            ],
        )])
    );
    assert_eq!(
        Command::from("a 12 34>b"),
        Command::group(vec![Command::redirect(
            simple(&["a", "12"]),
            vec![RedirectDestination::new(
                IoOperation::OutputCreate,
                Some(34),
                Some(Word::parse("b"))
            )],
        )])
    );
}

#[test]
fn words_are_split_at_blanks() {
    assert_eq!(
        split_words("one  'two three'\tfour"),
        vec![Word::parse("one"), Word::parse("'two three'"), Word::parse("four")]
    );
    assert!(split_words("").is_empty());
}
