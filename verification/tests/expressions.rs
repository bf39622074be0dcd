use urd::filters::{
    apply_filters, apply_local_ip, local_ip_for_host, parse_expression, replace_loopback_host, Filter, FilterError,
};
use urd::glob::glob_matches;
use urd::template::{find_expressions, parse_template};

#[test]
fn parse_no_filters() {
    let (id, filters) = parse_expression("app.url").unwrap();
    assert_eq!(id, "app.url");
    assert!(filters.is_empty());
}

#[test]
fn parse_single_filter() {
    let (id, filters) = parse_expression("app.url | local_ip").unwrap();
    assert_eq!(id, "app.url");
    assert_eq!(filters, vec![Filter::LocalIp]);
}

#[test]
fn parse_single_filter_no_spaces() {
    let (id, filters) = parse_expression("app.url|local_ip").unwrap();
    assert_eq!(id, "app.url");
    assert_eq!(filters, vec![Filter::LocalIp]);
}

#[test]
fn parse_multiple_filters() {
    let (id, filters) = parse_expression("app.url | local_ip").unwrap();
    assert_eq!(id, "app.url");
    assert_eq!(filters.len(), 1);
}

#[test]
fn parse_unknown_filter_errors() {
    assert!(parse_expression("app.url | bogus").is_err());
}

// The machine's LAN address is handed in here, so that these cases do not
// depend on the network of the machine running them.
const LAN: &str = "192.168.1.20";

#[test]
fn local_ip_replaces_localhost() {
    let result = replace_loopback_host("http://localhost:4000", Some(LAN.to_string())).unwrap();
    assert!(!result.contains("localhost"));
    assert!(result.contains(":4000"));
    assert!(result.starts_with("http://"));
}

#[test]
fn local_ip_replaces_127() {
    let result = replace_loopback_host("http://127.0.0.1:57321", Some(LAN.to_string())).unwrap();
    assert!(!result.contains("127.0.0.1"));
    assert!(result.contains(":57321"));
}

#[test]
fn apply_local_ip_on_loopback_url() {
    // Whether the machine has a LAN address depends on where this runs:
    // either the loopback host is replaced, or the missing address is
    // reported.
    match apply_local_ip("http://localhost:4000/api") {
        Ok(result) => {
            assert!(!result.contains("localhost"));
            assert!(result.starts_with("http://"));
            assert!(result.ends_with(":4000/api"));
        },
        Err(e) => assert!(matches!(e, FilterError::NoLanAddress)),
    }
}

#[test]
fn local_ip_preserves_non_loopback() {
    let input = "https://example.supabase.co";
    let result = apply_local_ip(input).unwrap();
    assert_eq!(result, input);
}

#[test]
fn local_ip_preserves_path_and_query() {
    let result = replace_loopback_host("http://localhost:3000/api/v1?key=val", Some(LAN.to_string())).unwrap();
    assert!(result.contains("/api/v1?key=val"));
    assert!(!result.contains("localhost"));
}

#[test]
fn local_ip_errors_on_non_url() {
    assert!(apply_local_ip("not-a-url").is_err());
}

#[test]
fn apply_filters_empty_pipeline() {
    let result = apply_filters("hello", &[]).unwrap();
    assert_eq!(result, "hello");
}

#[test]
fn apply_filters_runs_each_filter_on_the_previous_value() {
    let url = "https://example.com:8443/x";
    let one = apply_filters(url, &[Filter::LocalIp]).unwrap();
    let two = apply_filters(url, &[Filter::LocalIp, Filter::LocalIp]).unwrap();
    assert_eq!(one, apply_local_ip(url).unwrap());
    assert_eq!(two, apply_local_ip(&one).unwrap());
    assert!(apply_filters("not-a-url", &[Filter::LocalIp, Filter::LocalIp]).is_err());
}

#[test]
fn glob_exact_match() {
    assert!(glob_matches("supabase.url", "supabase.url"));
    assert!(!glob_matches("supabase.url", "supabase.anon_key"));
}

#[test]
fn glob_trailing_wildcard() {
    assert!(glob_matches("supabase.*", "supabase.url"));
    assert!(glob_matches("supabase.*", "supabase.anon_key"));
    assert!(!glob_matches("supabase.*", "stripe.secret_key"));
}

#[test]
fn glob_leading_wildcard() {
    assert!(glob_matches("*.url", "supabase.url"));
    assert!(!glob_matches("*.url", "supabase.anon_key"));
}

#[test]
fn glob_middle_wildcard() {
    assert!(glob_matches("supabase.*.key", "supabase.anon.key"));
    assert!(!glob_matches("supabase.*.key", "supabase.url"));
}

#[test]
fn glob_star_matches_everything() {
    assert!(glob_matches("*", "anything.at.all"));
}

#[test]
fn find_expressions_none() {
    assert!(find_expressions("PORT=3000").is_empty());
    assert!(find_expressions("# just a comment").is_empty());
    assert!(find_expressions("").is_empty());
}

#[test]
fn find_expressions_single() {
    let exprs = find_expressions("API_KEY={{ stripe.secret_key }}");
    assert_eq!(exprs.len(), 1);
    assert_eq!(exprs[0].2, "stripe.secret_key");
}

#[test]
fn find_expressions_multiple() {
    let exprs = find_expressions("URL={{ app.protocol }}://{{ app.host }}:{{ app.port }}");
    assert_eq!(exprs.len(), 3);
    assert_eq!(exprs[0].2, "app.protocol");
    assert_eq!(exprs[1].2, "app.host");
    assert_eq!(exprs[2].2, "app.port");
}

#[test]
fn find_expressions_positions_are_byte_offsets() {
    let exprs = find_expressions("KEY={{ a }} {{b}}");
    assert_eq!((exprs[0].0, exprs[0].1), (4, 11));
    assert_eq!((exprs[1].0, exprs[1].1), (12, 17));
    let line = "É→={{ a }}";
    let exprs = find_expressions(line);
    assert_eq!(exprs.len(), 1);
    assert_eq!((exprs[0].0, exprs[0].1), (6, 13));
    assert_eq!(&line[exprs[0].0..exprs[0].1], "{{ a }}");
}

#[test]
fn find_expressions_no_space() {
    let exprs = find_expressions("KEY={{stripe.key}}");
    assert_eq!(exprs.len(), 1);
    assert_eq!(exprs[0].2, "stripe.key");
}

#[test]
fn find_expressions_unclosed() {
    assert!(find_expressions("KEY={{ broken").is_empty());
}

#[test]
fn template_target_inferred_from_env_template() {
    let template = parse_template("PORT=3000\n", "env.template");
    assert_eq!(template.target, "env");
}

#[test]
fn template_target_inferred_from_dotenv_template() {
    let template = parse_template("PORT=3000\n", ".env.template");
    assert_eq!(template.target, ".env");
}

#[test]
fn template_target_from_frontmatter() {
    let template = parse_template("# target: .env.local\nPORT=3000\n", ".env.template");
    assert_eq!(template.target, ".env.local");
    assert_eq!(template.lines.len(), 1);
    assert_eq!(template.lines[0], "PORT=3000");
}

// Further cases of the same functions.

#[test]
fn find_expressions_positions_are_character_offsets() {
    let exprs = find_expressions("A={{ x }}");
    assert_eq!(exprs, vec![(2, 9, "x".to_string())]);
}

#[test]
fn find_expressions_skips_empty_expression() {
    assert!(find_expressions("A={{   }}").is_empty());
}

#[test]
fn glob_does_not_match_prefix_only() {
    assert!(!glob_matches("supabase", "supabase.url"));
    assert!(glob_matches("a*b*c", "aXbYc"));
    assert!(!glob_matches("a*b*c", "aXcYb"));
}

#[test]
fn parse_expression_reports_the_unknown_filter() {
    match parse_expression("x | local_ip | nope ") {
        Err(urd::filters::FilterError::InExpression { expression, name }) => {
            assert_eq!(expression, "x | local_ip | nope ");
            assert_eq!(name, "nope");
        }
        _ => panic!("expected an unknown filter error"),
    }
}

#[test]
fn template_without_suffix_keeps_its_name() {
    let t = parse_template("A=1", "envfile");
    assert_eq!(t.target, "envfile");
    assert_eq!(t.lines, vec!["A=1".to_string()]);
}

#[test]
fn local_ip_uses_the_given_address() {
    let result = replace_loopback_host("http://localhost:4000/x", Some(LAN.to_string())).unwrap();
    assert_eq!(result, "http://192.168.1.20:4000/x");
    assert!(matches!(replace_loopback_host("http://localhost:4000", None), Err(FilterError::NoLanAddress)));
    assert_eq!(replace_loopback_host("http://example.com/", None).unwrap(), "http://example.com/");
}

#[test]
fn local_ip_decides_on_the_parsed_host() {
    let v = "http://localhost:3000";
    let out = local_ip_for_host(v, Some(Some("localhost".to_string())), Some(LAN.to_string())).unwrap();
    assert_eq!(out, "http://192.168.1.20:3000/");
    assert_eq!(local_ip_for_host(v, Some(Some("example.com".to_string())), None).unwrap(), v);
    assert!(matches!(local_ip_for_host(v, None, Some(LAN.to_string())), Err(FilterError::InvalidUrl { .. })));
    assert!(matches!(local_ip_for_host(v, Some(Some("::1".to_string())), None), Err(FilterError::NoLanAddress)));
}
