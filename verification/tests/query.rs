use shspectr::common::sql::SqlParam;
use shspectr::web::filter::EventFilter;
use shspectr::web::listing::{EventSortKey, ListRequest, SortDirection};
use shspectr::web::query::{build_where_clause, list_since_statement, list_statements};
use shspectr::web::users::{load_passwd, PasswdTable};

fn users() -> PasswdTable {
    load_passwd("root:x:0:0:root:/root:/bin/bash\n")
}

fn text(s: &str) -> SqlParam {
    SqlParam::Text(s.to_owned())
}

#[test]
fn empty_filter_selects_exec_events() {
    let (clause, params) = build_where_clause(&EventFilter::default(), &users());
    assert_eq!(clause, "WHERE event_type = 'exec'");
    assert!(params.is_empty());
}

#[test]
fn comm_glob_escapes_like_metacharacters() {
    let (clause, params) = build_where_clause(&EventFilter::parse("comm:a_b*"), &users());
    assert_eq!(
        clause,
        "WHERE event_type = 'exec' AND comm LIKE ?1 ESCAPE '\\'"
    );
    assert_eq!(params, vec![text("a\\_b%")]);
}

#[test]
fn negated_nullable_columns_keep_nulls() {
    let (clause, params) = build_where_clause(&EventFilter::parse("!exit:0"), &users());
    assert_eq!(
        clause,
        "WHERE event_type = 'exec' AND (exit_code IS NULL OR exit_code != ?1)"
    );
    assert_eq!(params, vec![SqlParam::Int(0)]);
}

#[test]
fn session_prefix_is_not_escaped() {
    let (clause, params) = build_where_clause(&EventFilter::parse("session:ox_"), &users());
    assert_eq!(clause, "WHERE event_type = 'exec' AND session_id LIKE ?1");
    assert_eq!(params, vec![text("ox_%")]);
}

#[test]
fn cmd_alternatives_each_bind_a_pattern() {
    let (clause, params) = build_where_clause(&EventFilter::parse("cmd:git|*ps"), &users());
    assert_eq!(
        clause,
        "WHERE event_type = 'exec' AND (filename LIKE ?1 ESCAPE '\\' OR filename LIKE ?2 ESCAPE '\\')"
    );
    assert_eq!(params, vec![text("%/git"), text("%ps")]);
}

#[test]
fn negated_cmd_requires_no_alternative_to_match() {
    let (clause, _) = build_where_clause(&EventFilter::parse("!cmd:git|ps"), &users());
    assert_eq!(
        clause,
        "WHERE event_type = 'exec' AND (filename IS NULL OR (filename NOT LIKE ?1 ESCAPE '\\' AND filename NOT LIKE ?2 ESCAPE '\\'))"
    );
}

#[test]
fn user_names_resolve_and_unknown_users_add_nothing() {
    let (clause, params) = build_where_clause(&EventFilter::parse("user:root"), &users());
    assert_eq!(clause, "WHERE event_type = 'exec' AND uid = ?1");
    assert_eq!(params, vec![SqlParam::Int(0)]);
    let (clause, params) = build_where_clause(&EventFilter::parse("user:nobody"), &users());
    assert_eq!(clause, "WHERE event_type = 'exec'");
    assert!(params.is_empty());
}

#[test]
fn bare_text_searches_three_columns() {
    let (clause, params) = build_where_clause(&EventFilter::parse("cargo"), &users());
    assert_eq!(
        clause,
        "WHERE event_type = 'exec' AND (comm LIKE ?1 OR filename LIKE ?1 OR argv LIKE ?1)"
    );
    assert_eq!(params, vec![text("%cargo%")]);
}

#[test]
fn sql_text_is_the_same_for_different_values() {
    let (a, pa) = build_where_clause(&EventFilter::parse("comm:bash pid:1 x"), &users());
    let (b, pb) = build_where_clause(&EventFilter::parse("comm:zsh' pid:2 y;--"), &users());
    assert_eq!(a, b);
    assert_eq!(pa.len(), pb.len());
    assert_ne!(pa, pb);
}

#[test]
fn list_statements_bind_page_size_and_offset_last() {
    let req = ListRequest {
        page: 3,
        page_size: 10,
        sort: EventSortKey::Comm,
        direction: SortDirection::Asc,
    };
    let st = list_statements(&req, &EventFilter::parse("pid:7"), &users());
    assert_eq!(
        st.count_sql,
        "SELECT COUNT(*) FROM events WHERE event_type = 'exec' AND pid = ?1"
    );
    assert!(st.select_sql.ends_with(
        "WHERE event_type = 'exec' AND pid = ?1 ORDER BY comm ASC, id DESC LIMIT ?2 OFFSET ?3"
    ));
    assert_eq!(
        st.select_params,
        vec![SqlParam::Int(7), SqlParam::Int(10), SqlParam::Int(20)]
    );
}

#[test]
fn live_tail_statement_binds_the_high_water_mark() {
    let (sql, params) = list_since_statement(42, &EventFilter::default(), &users());
    assert!(sql.ends_with("WHERE event_type = 'exec' AND id > ?1 ORDER BY id ASC LIMIT 100"));
    assert_eq!(params, vec![SqlParam::Int(42)]);
}
