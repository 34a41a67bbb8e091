use hodoku::Delim;
use hodoku::Spacing;
use hodoku::Token;
use hodoku::expr;
use hodoku::function;
use hodoku::process;

fn ident(name: &str, span: u32) -> Token {
    Token::Ident { name: name.to_string(), span }
}

fn punct(ch: char, spacing: Spacing, span: u32) -> Token {
    Token::Punct { ch, spacing, span }
}

fn lit(text: &str, span: u32) -> Token {
    Token::Literal { text: text.to_string(), span }
}

fn group(delim: Delim, tokens: Vec<Token>, span: u32) -> Token {
    Token::Group { delim, tokens, span }
}

fn unwrap_expansion(span: u32) -> Vec<Token> {
    vec![
        punct('.', Spacing::Joint, span),
        ident("unwrap", span),
        group(Delim::Paren, vec![], span),
    ]
}

#[test]
fn empty_input_gives_empty_output() {
    let out = process(&vec![]);
    assert_eq!(out, vec![]);
}

#[test]
fn single_marker_expands_to_three_tokens() {
    let out = process(&vec![punct('?', Spacing::Alone, 5)]);
    assert_eq!(out.len(), 3);
    assert_eq!(out, unwrap_expansion(5));
}

#[test]
fn example_some_42() {
    // Some ( 42 ) ?  ->  Some ( 42 ) . unwrap ( )
    let input = vec![
        ident("Some", 1),
        group(Delim::Paren, vec![lit("42", 2)], 3),
        punct('?', Spacing::Alone, 4),
    ];
    let mut expected = vec![ident("Some", 1), group(Delim::Paren, vec![lit("42", 2)], 3)];
    expected.extend(unwrap_expansion(4));
    assert_eq!(process(&input), expected);
}

#[test]
fn example_let_value() {
    // let value = Some ( 42 ) ? ;  ->  let value = Some ( 42 ) . unwrap ( ) ;
    let input = vec![
        ident("let", 1),
        ident("value", 2),
        punct('=', Spacing::Alone, 3),
        ident("Some", 4),
        group(Delim::Paren, vec![lit("42", 5)], 6),
        punct('?', Spacing::Alone, 7),
        punct(';', Spacing::Alone, 8),
    ];
    let mut expected = vec![
        ident("let", 1),
        ident("value", 2),
        punct('=', Spacing::Alone, 3),
        ident("Some", 4),
        group(Delim::Paren, vec![lit("42", 5)], 6),
    ];
    expected.extend(unwrap_expansion(7));
    expected.push(punct(';', Spacing::Alone, 8));
    assert_eq!(process(&input), expected);
}

#[test]
fn example_grouped_two_markers() {
    // { foo ( ) ? . bar ( ) ? }  ->  { foo ( ) . unwrap ( ) . bar ( ) . unwrap ( ) }
    let inner = vec![
        ident("foo", 1),
        group(Delim::Paren, vec![], 2),
        punct('?', Spacing::Alone, 3),
        punct('.', Spacing::Alone, 4),
        ident("bar", 5),
        group(Delim::Paren, vec![], 6),
        punct('?', Spacing::Alone, 7),
    ];
    let input = vec![group(Delim::Brace, inner, 8)];
    let mut expected_inner = vec![ident("foo", 1), group(Delim::Paren, vec![], 2)];
    expected_inner.extend(unwrap_expansion(3));
    expected_inner.push(punct('.', Spacing::Alone, 4));
    expected_inner.push(ident("bar", 5));
    expected_inner.push(group(Delim::Paren, vec![], 6));
    expected_inner.extend(unwrap_expansion(7));
    let expected = vec![group(Delim::Brace, expected_inner, 8)];
    assert_eq!(process(&input), expected);
}

#[test]
fn example_no_marker_unchanged() {
    // assert_eq ! ( value , 42 )  ->  unchanged, token for token
    let input = vec![
        ident("assert_eq", 1),
        punct('!', Spacing::Alone, 2),
        group(
            Delim::Paren,
            vec![ident("value", 3), punct(',', Spacing::Alone, 4), lit("42", 5)],
            6,
        ),
    ];
    assert_eq!(process(&input), input);
}

#[test]
fn no_marker_identity_all_kinds() {
    let input = vec![
        ident("x", 1),
        lit("\"text\"", 2),
        punct(':', Spacing::Joint, 3),
        punct(':', Spacing::Alone, 4),
        group(
            Delim::Bracket,
            vec![group(Delim::Brace, vec![group(Delim::Invisible, vec![lit("1", 5)], 6)], 7)],
            8,
        ),
    ];
    assert_eq!(process(&input), input);
}

#[test]
fn markers_at_same_level_each_expand() {
    // a ? b ? ?  ->  a . unwrap ( ) b . unwrap ( ) . unwrap ( )
    let input = vec![
        ident("a", 1),
        punct('?', Spacing::Alone, 2),
        ident("b", 3),
        punct('?', Spacing::Alone, 4),
        punct('?', Spacing::Alone, 5),
    ];
    let mut expected = vec![ident("a", 1)];
    expected.extend(unwrap_expansion(2));
    expected.push(ident("b", 3));
    expected.extend(unwrap_expansion(4));
    expected.extend(unwrap_expansion(5));
    let out = process(&input);
    // three markers: the output grows by two tokens per marker
    assert_eq!(out.len(), input.len() + 2 * 3);
    assert_eq!(out, expected);
}

#[test]
fn marker_expanded_in_place_at_depth() {
    // ( before [ x ? ] after )  ->  marker expanded at depth two, both
    // ancestor groupings unchanged in delimiter, span and position
    let depth_two = vec![ident("x", 1), punct('?', Spacing::Alone, 2)];
    let depth_one = vec![
        ident("before", 3),
        group(Delim::Bracket, depth_two, 4),
        ident("after", 5),
    ];
    let input = vec![group(Delim::Paren, depth_one, 6)];
    let mut expected_two = vec![ident("x", 1)];
    expected_two.extend(unwrap_expansion(2));
    let expected_one = vec![
        ident("before", 3),
        group(Delim::Bracket, expected_two, 4),
        ident("after", 5),
    ];
    let expected = vec![group(Delim::Paren, expected_one, 6)];
    assert_eq!(process(&input), expected);
}

#[test]
fn marker_as_first_token_still_expands() {
    let input = vec![punct('?', Spacing::Alone, 1), ident("x", 2)];
    let mut expected = unwrap_expansion(1);
    expected.push(ident("x", 2));
    assert_eq!(process(&input), expected);
}

#[test]
fn consecutive_markers_expand_independently() {
    let input = vec![punct('?', Spacing::Alone, 1), punct('?', Spacing::Joint, 2)];
    let mut expected = unwrap_expansion(1);
    expected.extend(unwrap_expansion(2));
    assert_eq!(process(&input), expected);
}

#[test]
fn non_marker_punctuation_keeps_spacing_and_span() {
    let input = vec![punct('+', Spacing::Joint, 9), punct('=', Spacing::Alone, 10)];
    let out = process(&input);
    assert_eq!(out, input);
}

#[test]
fn expansion_carries_the_marker_span() {
    let out = process(&vec![punct('?', Spacing::Joint, 41)]);
    assert_eq!(
        out,
        vec![
            punct('.', Spacing::Joint, 41),
            ident("unwrap", 41),
            group(Delim::Paren, vec![], 41),
        ]
    );
}

#[test]
fn function_rejects_arguments() {
    let args = vec![ident("config", 1)];
    let item = vec![ident("x", 2), punct('?', Spacing::Alone, 3)];
    let out = function(&args, &item);
    assert_eq!(out, Err("#[hodoku::function]: takes no arguments".to_string()));
}

#[test]
fn function_rejects_even_one_punct_argument() {
    let args = vec![punct(',', Spacing::Alone, 1)];
    let out = function(&args, &vec![]);
    assert!(out.is_err());
}

#[test]
fn function_with_no_arguments_rewrites_item() {
    let args = vec![];
    let item = vec![ident("x", 1), punct('?', Spacing::Alone, 2)];
    let mut expected = vec![ident("x", 1)];
    expected.extend(unwrap_expansion(2));
    assert_eq!(function(&args, &item), Ok(expected));
}

#[test]
fn expr_rewrites_directly() {
    let input = vec![
        ident("Some", 1),
        group(Delim::Paren, vec![lit("42", 2)], 3),
        punct('?', Spacing::Alone, 4),
    ];
    assert_eq!(expr(&input), process(&input));
    let mut expected = vec![ident("Some", 1), group(Delim::Paren, vec![lit("42", 2)], 3)];
    expected.extend(unwrap_expansion(4));
    assert_eq!(expr(&input), expected);
}

#[test]
fn marker_inside_invisible_group_expands() {
    let input = vec![group(Delim::Invisible, vec![punct('?', Spacing::Alone, 1)], 2)];
    let expected = vec![group(Delim::Invisible, unwrap_expansion(1), 2)];
    assert_eq!(process(&input), expected);
}

#[test]
fn literal_question_mark_text_is_not_a_marker() {
    // a literal whose text contains '?' is not a punctuation token and
    // passes through unchanged
    let input = vec![lit("\"??\"", 1)];
    assert_eq!(process(&input), input);
}
