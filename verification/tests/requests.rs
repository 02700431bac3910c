use harbor_rs::client::{
    basic_auth_token, bool_str, build_url, i64_to_string, list_projects_params, list_tags_params,
    list_users_params, repo_tag_path, repo_tags_path, search_users_params, u64_to_string,
    webhook_jobs_params,
};
use harbor_rs::user::User;

fn pairs(v: &[(&str, &str)]) -> Vec<(String, String)> {
    v.iter().map(|(k, val)| (k.to_string(), val.to_string())).collect()
}

#[test]
fn auth_token_encodes_the_credentials() {
    assert_eq!(
        basic_auth_token("admin", "Harbor12345"),
        "Basic YWRtaW46SGFyYm9yMTIzNDU="
    );
    assert_eq!(basic_auth_token("u", "p"), "Basic dTpw");
}

#[test]
fn urls_join_with_exactly_one_slash() {
    assert_eq!(build_url("https://registry/api", "projects"), "https://registry/api/projects");
    assert_eq!(build_url("https://registry/api", "/projects"), "https://registry/api/projects");
    assert_eq!(
        build_url("https://registry/api", "///system/gc"),
        "https://registry/api/system/gc"
    );
    assert_eq!(build_url("https://registry/api", ""), "https://registry/api/");
}

#[test]
fn sweep_request_paths() {
    assert_eq!(repo_tags_path("demo/app"), "/repositories/demo/app/tags");
    assert_eq!(repo_tag_path("demo/app", "v1.2"), "/repositories/demo/app/tags/v1.2");
}

#[test]
fn numbers_render_in_decimal() {
    assert_eq!(u64_to_string(0), "0");
    assert_eq!(u64_to_string(42), "42");
    assert_eq!(u64_to_string(u64::MAX), "18446744073709551615");
    assert_eq!(i64_to_string(0), "0");
    assert_eq!(i64_to_string(314), "314");
    assert_eq!(i64_to_string(-27), "-27");
    assert_eq!(i64_to_string(i64::MIN), "-9223372036854775808");
    assert_eq!(bool_str(true), "true");
    assert_eq!(bool_str(false), "false");
}

#[test]
fn tag_listing_query() {
    assert_eq!(
        list_tags_params(None, Some(true)),
        pairs(&[("detail", "true")])
    );
    assert_eq!(
        list_tags_params(Some("12".to_string()), Some(false)),
        pairs(&[("label", "12"), ("detail", "false")])
    );
    assert_eq!(list_tags_params(None, None), pairs(&[]));
}

#[test]
fn project_listing_query() {
    assert_eq!(
        list_projects_params(Some("test".to_string()), None, None, None, None),
        pairs(&[("name", "test")])
    );
    assert_eq!(
        list_projects_params(
            Some("test".to_string()),
            Some(true),
            Some("admin".to_string()),
            Some(2),
            Some(50),
        ),
        pairs(&[
            ("name", "test"),
            ("public", "true"),
            ("owner", "admin"),
            ("page", "2"),
            ("page_size", "50"),
        ])
    );
}

#[test]
fn user_queries() {
    assert_eq!(
        list_users_params(Some("testuser".to_string()), None, None, None),
        pairs(&[("username", "testuser")])
    );
    assert_eq!(
        list_users_params(None, Some("testuser@gmail.com".to_string()), Some(1), Some(10)),
        pairs(&[("email", "testuser@gmail.com"), ("page", "1"), ("page_size", "10")])
    );
    assert_eq!(
        search_users_params("testuser".to_string(), None, None),
        pairs(&[("username", "testuser")])
    );
    assert_eq!(
        search_users_params("testuser".to_string(), Some(3), None),
        pairs(&[("username", "testuser"), ("page", "3")])
    );
    assert_eq!(webhook_jobs_params(-9), pairs(&[("policy_id", "-9")]));
}

#[test]
fn new_user_carries_only_the_given_fields() {
    let user = User::new(
        "testuser@gmail.com".to_string(),
        "testuser".to_string(),
        "Test User".to_string(),
        "Test1234".to_string(),
        Some("a comment".to_string()),
    );
    assert_eq!(user.email, "testuser@gmail.com");
    assert_eq!(user.username, "testuser");
    assert_eq!(user.realname, "Test User");
    assert_eq!(user.password, "Test1234");
    assert_eq!(user.comment, Some("a comment".to_string()));
    assert!(user.user_id.is_none());
    assert!(user.role_id.is_none());
    assert!(user.has_admin_role.is_none());
}

#[test]
fn user_profile_defaults_the_comment_to_empty() {
    let user = User::new(
        "a@b.c".to_string(),
        "ab".to_string(),
        "A B".to_string(),
        "pw".to_string(),
        None,
    );
    let profile = user.get_user_profile();
    assert_eq!(profile.comment, "");
    assert_eq!(profile.email, "a@b.c");
    assert_eq!(profile.realname, "A B");

    let with_comment = User::new(
        "a@b.c".to_string(),
        "ab".to_string(),
        "A B".to_string(),
        "pw".to_string(),
        Some("hello".to_string()),
    );
    assert_eq!(with_comment.get_user_profile().comment, "hello");
}
