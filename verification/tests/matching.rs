use rusty_stub_api::engine::engine_verdict;
use rusty_stub_api::template::{
    compile_pattern, extract_placeholder_names, literal, metacharacter, pattern_of, pieces_of,
    placeholder_of, replace_placeholder, substitute_names, Piece,
};
use rusty_stub_api::transactions::paths_match;

fn owned(list: &[&str]) -> Vec<String> {
    list.iter().map(|name| name.to_string()).collect()
}

#[test]
fn placeholder_stands_for_one_segment() {
    let params = owned(&["petId"]);
    assert!(paths_match("/pets/{petId}", "/pets/42", &params));
    assert!(paths_match("/pets/{petId}", "/pets/rex-the-dog", &params));
    assert!(!paths_match("/pets/{petId}", "/pets", &params));
    assert!(!paths_match("/pets/{petId}", "/pets/", &params));
    assert!(!paths_match("/pets/{petId}", "/pets/42/toys", &params));
}

#[test]
fn two_placeholders_round_trip() {
    let params = owned(&["a", "b"]);
    let template = "/x/{a}/y/{b}";
    for first in ["1", "alpha", "a.b", "ü", "[^x]+"] {
        for second in ["2", "beta", "x y", "{b}"] {
            let path = format!("/x/{}/y/{}", first, second);
            assert!(paths_match(template, &path, &params), "{}", path);
        }
    }
}

#[test]
fn value_with_a_slash_does_not_match() {
    let params = owned(&["a", "b"]);
    let template = "/x/{a}/y/{b}";
    assert!(!paths_match(template, "/x/1/2/y/3", &params));
    assert!(!paths_match(template, "/x/1/y/2/3", &params));
    assert!(!paths_match(template, "/x//y/3", &params));
    assert!(!paths_match(template, "/x/1/y/", &params));
}

#[test]
fn literal_dot_is_not_a_wildcard() {
    assert!(paths_match("/files/report.pdf", "/files/report.pdf", &[]));
    assert!(!paths_match("/files/report.pdf", "/files/reportXpdf", &[]));
    assert!(!paths_match("/files/report.pdf", "/files/report/pdf", &[]));
}

#[test]
fn each_escaped_character_matches_itself_only() {
    for special in [".", "?", "+", "*", "(", ")", "[", "]"] {
        let template = format!("/a{}b", special);
        assert!(paths_match(&template, &template, &[]), "{}", template);
        assert!(!paths_match(&template, "/ab", &[]), "{}", template);
        assert!(!paths_match(&template, "/aab", &[]), "{}", template);
        assert!(!paths_match(&template, "/aXb", &[]), "{}", template);
    }
}

#[test]
fn template_is_anchored_at_both_ends() {
    assert!(paths_match("/pets", "/pets", &[]));
    assert!(!paths_match("/pets", "/pets/1", &[]));
    assert!(!paths_match("/pets", "/v1/pets", &[]));
    assert!(!paths_match("/pets", "", &[]));
}

#[test]
fn placeholder_that_is_not_named_stays_literal() {
    assert!(!paths_match("/pets/{petId}", "/pets/42", &[]));
    assert!(!paths_match("/pets/{petId}", "/pets/42", &owned(&["other"])));
}

#[test]
fn refused_pattern_matches_nothing() {
    assert!(!paths_match("/pets/{", "/pets/{", &[]));
    assert!(!paths_match("/pets/{}", "/pets/{}", &[]));
    assert!(!paths_match("/pets/\\", "/pets/\\", &[]));
}

#[test]
fn engine_verdict_reads_each_answer() {
    assert!(engine_verdict(Some(true)));
    assert!(!engine_verdict(Some(false)));
    assert!(!engine_verdict(None));
}

#[test]
fn pattern_of_a_literal_template() {
    assert_eq!(compile_pattern("/pets", &[]), "^/pets$");
    assert_eq!(compile_pattern("", &[]), "^$");
    assert_eq!(compile_pattern("/files/report.pdf", &[]), "^/files/report\\.pdf$");
    assert_eq!(compile_pattern("/a.b?c+d*e(f)g[h]", &[]), "^/a\\.b\\?c\\+d\\*e\\(f\\)g\\[h\\]$");
}

#[test]
fn pattern_of_a_template_with_placeholders() {
    assert_eq!(compile_pattern("/pets/{petId}", &owned(&["petId"])), "^/pets/[^/]+$");
    assert_eq!(
        compile_pattern("/x/{a}/y/{b}.json", &owned(&["a", "b"])),
        "^/x/[^/]+/y/[^/]+\\.json$"
    );
    assert_eq!(compile_pattern("/x/{a}/{a}", &owned(&["a"])), "^/x/[^/]+/[^/]+$");
    assert_eq!(compile_pattern("/x/{a}/{b}", &owned(&["b"])), "^/x/{a}/[^/]+$");
    assert_eq!(compile_pattern("/x/{}", &owned(&[""])), "^/x/[^/]+$");
}

#[test]
fn wildcard_is_not_read_again_as_text() {
    let params = owned(&["a", "x[^/]+y"]);
    assert_eq!(compile_pattern("{x{a}y}", &params), "^{x[^/]+y}$");
}

#[test]
fn pieces_and_tokens() {
    assert_eq!(pieces_of("a/"), vec![Piece::Literal('a'), Piece::Literal('/')]);
    assert_eq!(literal('x'), Piece::Literal('x'));
    assert_eq!(
        placeholder_of("id"),
        vec![Piece::Literal('{'), Piece::Literal('i'), Piece::Literal('d'), Piece::Literal('}')]
    );
    let replaced = replace_placeholder(&pieces_of("{id}/{id}{i}"), &placeholder_of("id"));
    assert_eq!(
        replaced,
        vec![
            Piece::Wildcard,
            Piece::Literal('/'),
            Piece::Wildcard,
            Piece::Literal('{'),
            Piece::Literal('i'),
            Piece::Literal('}'),
        ]
    );
    assert_eq!(replace_placeholder(&pieces_of("abc"), &Vec::new()), pieces_of("abc"));
    let both = substitute_names(pieces_of("{a}{b}"), &owned(&["b", "a"]));
    assert_eq!(both, vec![Piece::Wildcard, Piece::Wildcard]);
    assert_eq!(pattern_of(&both), "^[^/]+[^/]+$");
    assert_eq!(pattern_of(&Vec::new()), "^$");
}

#[test]
fn escaped_characters_are_eight() {
    let escaped: Vec<char> = (0u8..128).map(char::from).filter(|c| metacharacter(*c)).collect();
    assert_eq!(escaped, vec!['(', ')', '*', '+', '.', '?', '[', ']']);
    assert!(!metacharacter('{'));
    assert!(!metacharacter('\\'));
    assert!(!metacharacter('é'));
}

#[test]
fn placeholder_names_in_order() {
    assert_eq!(extract_placeholder_names("/pets/{petId}"), owned(&["petId"]));
    assert_eq!(extract_placeholder_names("/x/{a}/y/{b}"), owned(&["a", "b"]));
    assert_eq!(extract_placeholder_names("/x/{a}/{a}"), owned(&["a", "a"]));
    assert_eq!(extract_placeholder_names("/pets"), Vec::<String>::new());
    assert_eq!(extract_placeholder_names(""), Vec::<String>::new());
}

#[test]
fn placeholder_names_of_odd_templates() {
    assert_eq!(extract_placeholder_names("{}"), Vec::<String>::new());
    assert_eq!(extract_placeholder_names("{}{a}"), owned(&["a"]));
    assert_eq!(extract_placeholder_names("{{a}"), owned(&["{a"]));
    assert_eq!(extract_placeholder_names("{a}}"), owned(&["a"]));
    assert_eq!(extract_placeholder_names("{a"), Vec::<String>::new());
    assert_eq!(extract_placeholder_names("a}{"), Vec::<String>::new());
    assert_eq!(extract_placeholder_names("{a/b}"), owned(&["a/b"]));
    assert_eq!(extract_placeholder_names("{}}{é}"), owned(&["é"]));
}

#[test]
fn placeholder_names_agree_with_the_engine() {
    let scanner = regex::Regex::new(r"\{([^}]+)\}").unwrap();
    let alphabet = ['{', '}', 'a', '/'];
    let mut templates: Vec<String> = vec![String::new()];
    let mut layer: Vec<String> = vec![String::new()];
    for _ in 0..6 {
        let mut longer = Vec::new();
        for stem in &layer {
            for c in alphabet {
                let mut text = stem.clone();
                text.push(c);
                longer.push(text);
            }
        }
        templates.extend(longer.iter().cloned());
        layer = longer;
    }
    assert_eq!(templates.len(), 5461);
    for template in &templates {
        let expected: Vec<String> =
            scanner.captures_iter(template).map(|found| found[1].to_string()).collect();
        assert_eq!(extract_placeholder_names(template), expected, "{}", template);
    }
}

fn stands_for(pieces: &[Piece], path: &[char]) -> bool {
    match pieces.split_first() {
        None => path.is_empty(),
        Some((Piece::Literal(c), rest)) => {
            path.first() == Some(c) && stands_for(rest, &path[1..])
        }
        Some((Piece::Wildcard, rest)) => (1..=path.len())
            .any(|k| !path[..k].contains(&'/') && stands_for(rest, &path[k..])),
    }
}

fn texts_over(alphabet: &[&str], longest: usize) -> Vec<String> {
    let mut all: Vec<String> = vec![String::new()];
    let mut layer: Vec<String> = vec![String::new()];
    for _ in 0..longest {
        let mut longer = Vec::new();
        for stem in &layer {
            for part in alphabet {
                longer.push(format!("{}{}", stem, part));
            }
        }
        all.extend(longer.iter().cloned());
        layer = longer;
    }
    all
}

#[test]
fn engine_agrees_with_what_the_pieces_stand_for() {
    let templates = texts_over(&["/", "a", ".", "{x}", "+"], 3);
    let paths = texts_over(&["/", "a", "."], 4);
    assert_eq!(templates.len(), 156);
    assert_eq!(paths.len(), 121);
    let mut matches = 0;
    for template in &templates {
        let names = extract_placeholder_names(template);
        let pieces = substitute_names(pieces_of(template), &names);
        for path in &paths {
            let chars: Vec<char> = path.chars().collect();
            let expected = stands_for(&pieces, &chars);
            assert_eq!(paths_match(template, path, &names), expected, "{} on {}", template, path);
            if expected {
                matches += 1;
            }
        }
    }
    assert!(matches > 100);
}

#[test]
fn other_operators_are_left_to_the_engine() {
    assert_eq!(compile_pattern("/files/a|b", &[]), "^/files/a|b$");
    assert!(paths_match("/files/a|b", "/files/a", &[]));
    assert!(paths_match("/a|b/{x}", "/a|b/1/2", &owned(&["x"])));
    assert_eq!(compile_pattern("/a\\.b", &[]), "^/a\\\\.b$");
    assert!(paths_match("/a\\.b", "/a\\Xb", &[]));
}
