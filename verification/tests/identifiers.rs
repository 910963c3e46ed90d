use tabularis_informix_plugin::utils::identifiers::quote_identifier;

#[test]
fn quotes_plain_names() {
    assert_eq!(quote_identifier("orders"), "\"orders\"");
    assert_eq!(quote_identifier("customer_num"), "\"customer_num\"");
}

#[test]
fn escapes_embedded_quotes() {
    assert_eq!(quote_identifier("a\"b"), "\"a\"\"b\"");
}

#[test]
fn handles_empty() {
    assert_eq!(quote_identifier(""), "\"\"");
}

#[test]
fn quoted_identifier_reads_back() {
    // Reading a quoted identifier back: doubled quotes stand for one quote,
    // a single quote closes it, and it closes at the very end.
    for name in ["plain", "a\"b", "\"\"", "\"", "x\"\"y\"z"] {
        let q = quote_identifier(name);
        let chars: Vec<char> = q.chars().collect();
        let mut content = String::new();
        let mut i = 1;
        let mut closed_at = None;
        while i < chars.len() {
            if chars[i] == '"' {
                if i + 1 < chars.len() && chars[i + 1] == '"' {
                    content.push('"');
                    i += 2;
                    continue;
                }
                closed_at = Some(i);
                break;
            }
            content.push(chars[i]);
            i += 1;
        }
        assert_eq!(content, name);
        assert_eq!(closed_at, Some(chars.len() - 1));
    }
}

#[test]
fn quotes_non_ascii_names() {
    assert_eq!(quote_identifier("größe"), "\"größe\"");
}
