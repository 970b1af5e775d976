use lox_scanner::scanner::Scanner;
use lox_scanner::token::{Token, TokenType};

const SAMPLES: [&str; 14] = [
    "",
    "(( )){}",
    "!= == <= >=",
    "\"hello\nworld\"",
    "123.45",
    "123.",
    "orchid",
    "\"unterminated",
    "var x = 1; // done\nprint x;",
    "a /* b\nc */ d @ e",
    "/* a *\n\n\"s\ns\" 1.5.x",
    "// only a comment",
    "fun f(a, b) { return a + b * 2 / (a - b); }",
    "é\n\"ü\" /*",
];

fn scan(source: &str) -> Vec<Token> {
    let mut scanner = Scanner::new(source);
    scanner.scan_tokens().clone()
}

#[test]
fn eof_is_last_and_only_last() {
    for source in SAMPLES {
        let tokens = scan(source);
        let (last, others) = tokens.split_last().unwrap();
        assert_eq!(last.token_type(), TokenType::Eof);
        assert_eq!(last.lexeme(), "");
        assert!(others.iter().all(|token| token.token_type() != TokenType::Eof));
    }
}

#[test]
fn one_token_for_each_operator_run() {
    let cases = [
        ("", 0),
        ("=", 1),
        ("==", 1),
        ("===", 2),
        ("====", 2),
        ("!=!", 2),
        ("<=>=", 2),
        ("<>=", 2),
        ("(){},.-+;*", 10),
        ("!=!(==)=<=>>=", 9),
        ("/=/", 3),
        ("=/=", 3),
        ("*/", 2),
    ];
    for (source, runs) in cases {
        let mut scanner = Scanner::new(source);
        assert_eq!(scanner.scan_tokens().len() - 1, runs, "in {:?}", source);
        assert!(!scanner.had_error());
    }
    let tokens = scan("!=!(==)=<=>>=");
    let found: Vec<&str> = tokens.iter().map(|token| token.lexeme()).collect();
    assert_eq!(found, vec!["!=", "!", "(", "==", ")", "=", "<=", ">", ">=", ""]);
}

#[test]
fn lexemes_and_discarded_text_give_the_source() {
    let source = "var x = 1; // done\nprint \"a b\" /* c */ @ y";
    let tokens = scan(source);
    let gaps = [
        "", " ", " ", " ", "", " // done\n", " ", " /* c */ @ ", "",
    ];
    assert_eq!(gaps.len(), tokens.len());
    let mut text = String::new();
    for (gap, token) in gaps.iter().zip(tokens.iter()) {
        text.push_str(gap);
        text.push_str(token.lexeme());
    }
    assert_eq!(text, source);
}

#[test]
fn lexemes_stand_in_the_source_in_order() {
    for source in SAMPLES {
        let chars: Vec<char> = source.chars().collect();
        let mut at = 0;
        for token in scan(source) {
            let lexeme: Vec<char> = token.lexeme().chars().collect();
            let found = (at..=chars.len() - lexeme.len())
                .find(|&start| chars[start..start + lexeme.len()] == lexeme[..]);
            assert!(found.is_some(), "{:?} in {:?}", token.lexeme(), source);
            at = found.unwrap() + lexeme.len();
        }
    }
}

#[test]
fn token_line_counts_the_line_feeds_before_it() {
    let source = "a\nb /* c\n\n */ \"d\ne\" // f\n\n  g\n";
    let tokens = scan(source);
    let starts = [0, 2, 14, 28];
    let found: Vec<&str> = tokens.iter().map(|token| token.lexeme()).collect();
    assert_eq!(found, vec!["a", "b", "\"d\ne\"", "g", ""]);
    for (token, start) in tokens.iter().zip(starts) {
        let before = source[..start].chars().filter(|&c| c == '\n').count();
        assert_eq!(token.line(), 1 + before);
        assert!(source[start..].starts_with(token.lexeme()));
    }
    let lines: Vec<usize> = tokens.iter().map(|token| token.line()).collect();
    assert_eq!(lines, vec![1, 2, 4, 7, 8]);
}

#[test]
fn lines_never_fall() {
    for source in SAMPLES {
        let tokens = scan(source);
        assert!(tokens.windows(2).all(|pair| pair[0].line() <= pair[1].line()));
        assert!(tokens[0].line() >= 1);
        let feeds = source.chars().filter(|&c| c == '\n').count();
        assert_eq!(tokens.last().unwrap().line(), 1 + feeds);
    }
}

#[test]
fn lexeme_scans_to_the_same_token() {
    for source in SAMPLES {
        for token in scan(source) {
            let mut scanner = Scanner::new(token.lexeme());
            let again = scanner.scan_tokens();
            assert_eq!(again[0].token_type(), token.token_type());
            assert_eq!(again[0].lexeme(), token.lexeme());
            assert_eq!(again[0].literal(), token.literal());
            assert_eq!(again[0].line(), 1);
            let expected = if token.token_type() == TokenType::Eof { 1 } else { 2 };
            assert_eq!(again.len(), expected);
            assert!(scanner.diagnostics().is_empty());
        }
    }
}
