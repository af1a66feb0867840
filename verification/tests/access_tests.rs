use github_submodule_hook::access::permissions::{BranchPerm, OwnerPerm, Permissions, RepoPerm, UserPerm};
use github_submodule_hook::access::token::{get_token, storable_token};
use github_submodule_hook::access::users::{user_file_line, PermissionRegistery, UserToken};

fn sample_permissions() -> Permissions {
    let mut branch = BranchPerm::new();
    branch.insert("submodule1".to_string());
    let mut repo = RepoPerm::new();
    repo.insert("branch".to_string(), branch);
    let mut owner = OwnerPerm::new();
    owner.insert("repo".to_string(), repo);
    let mut user = UserPerm::new();
    user.insert("owner".to_string(), owner);
    let mut perms = Permissions::new();
    perms.insert("user1".to_string(), user);
    perms
}

#[test]
fn permissions_grant_the_full_path() {
    let perms = sample_permissions();
    assert!(perms.allowed("user1", "owner", "repo", "branch", "submodule1"));
}

#[test]
fn permissions_refuse_each_missing_level() {
    let perms = sample_permissions();
    assert!(!perms.allowed("user2", "owner", "repo", "branch", "submodule1"));
    assert!(!perms.allowed("user1", "other", "repo", "branch", "submodule1"));
    assert!(!perms.allowed("user1", "owner", "other", "branch", "submodule1"));
    assert!(!perms.allowed("user1", "owner", "repo", "main", "submodule1"));
    assert!(!perms.allowed("user1", "owner", "repo", "branch", "submodule2"));
}

#[test]
fn permissions_insert_replaces() {
    let mut perms = sample_permissions();
    perms.insert("user1".to_string(), UserPerm::new());
    assert!(!perms.allowed("user1", "owner", "repo", "branch", "submodule1"));
}

#[test]
fn user_file_lines_are_split_and_trimmed() {
    let users = UserToken::from_str("user1 = abc\nuser2=def\n\nno separator here\n  user3 =  x=y  \n");
    assert_eq!(users.map.len(), 3);
    assert_eq!(users.map.get("abc").map(|s| s.as_str()), Some("user1"));
    assert_eq!(users.map.get("def").map(|s| s.as_str()), Some("user2"));
    assert_eq!(users.map.get("x=y").map(|s| s.as_str()), Some("user3"));
}

#[test]
fn user_file_later_line_wins() {
    let users = UserToken::from_str("alice = t1\nbob = t1\n");
    assert_eq!(users.map.len(), 1);
    assert_eq!(users.map.get("t1").map(|s| s.as_str()), Some("bob"));
}

#[test]
fn user_file_last_line_without_newline_counts() {
    let users = UserToken::from_str("alice = t1");
    assert_eq!(users.map.get("t1").map(|s| s.as_str()), Some("alice"));
}

#[test]
fn user_file_carriage_returns_and_unicode_spaces_are_trimmed() {
    let users = UserToken::from_str("alice\u{3000}= t1\r\n\u{a0}bob =\tt2\u{2003}\r\n");
    assert_eq!(users.map.get("t1").map(|s| s.as_str()), Some("alice"));
    assert_eq!(users.map.get("t2").map(|s| s.as_str()), Some("bob"));
}

#[test]
fn user_file_empty_text_has_no_user() {
    let users = UserToken::from_str("");
    assert_eq!(users.map.len(), 0);
}

#[test]
fn user_file_empty_sides_are_kept() {
    let users = UserToken::from_str("=\n");
    assert_eq!(users.map.get("").map(|s| s.as_str()), Some(""));
}

#[test]
fn storable_token_is_base64_of_sha512() {
    assert_eq!(
        storable_token("abc"),
        "3a81oZNherrMQXNJriBBMRLm+k6JqX6iCp7u5ktV05ohkpkqJ0/BqDa6PCOj/uu9RU1EI2Q86A4qmslPpUyknw=="
    );
}

#[test]
fn storable_token_of_empty_token() {
    assert_eq!(
        storable_token(""),
        "z4PhNX7vuL3xVChQ1m2AB9Yg5AULVxXcg/SpIdNs6c5H0NE8XYXysP+DGNKHfuwvY7kxvUdBeoGlODJ6+SfaPg=="
    );
}

#[test]
fn get_token_is_a_uuid_v4() {
    let t = get_token();
    let chars: Vec<char> = t.chars().collect();
    assert_eq!(chars.len(), 36);
    for (i, c) in chars.iter().enumerate() {
        if i == 8 || i == 13 || i == 18 || i == 23 {
            assert_eq!(*c, '-');
        } else {
            assert!(c.is_ascii_digit() || ('a'..='f').contains(c));
        }
    }
    assert_eq!(chars[14], '4');
    assert!(['8', '9', 'a', 'b'].contains(&chars[19]));
    assert_ne!(get_token(), t);
}

#[test]
fn user_file_line_format() {
    assert_eq!(user_file_line("alice", "XYZ=="), "alice = XYZ==\n");
}

#[test]
fn added_user_is_read_back() {
    let token = "4e1c0f6a-1f3b-4c55-9d7e-0a8b2c3d4e5f";
    let stored = storable_token(token);
    let mut text = String::from("bob = something\n");
    text.push_str(&user_file_line("alice", &stored));
    let users = UserToken::from_str(&text);
    assert_eq!(users.map.get(stored.as_str()).map(|s| s.as_str()), Some("alice"));
    assert_eq!(users.map.get("something").map(|s| s.as_str()), Some("bob"));
    assert_eq!(users.map.len(), 2);
}

#[test]
fn registry_allows_only_through_a_known_token() {
    let token = "secret-token";
    let text = user_file_line("user1", &storable_token(token));
    let registry = PermissionRegistery { users: UserToken::from_str(&text), permissions: sample_permissions() };
    assert!(registry.allowed(token, "owner", "repo", "branch", "submodule1"));
    assert!(!registry.allowed(token, "owner", "repo", "branch", "submodule2"));
    assert!(!registry.allowed("other-token", "owner", "repo", "branch", "submodule1"));
    assert_eq!(registry.get_user(token).map(|s| s.as_str()), Some("user1"));
    assert!(registry.get_user("user1").is_none());
}

#[test]
fn registry_does_not_take_the_stored_form_as_token() {
    let token = "secret-token";
    let stored = storable_token(token);
    let text = user_file_line("user1", &stored);
    let registry = PermissionRegistery { users: UserToken::from_str(&text), permissions: sample_permissions() };
    assert!(!registry.allowed(&stored, "owner", "repo", "branch", "submodule1"));
}

#[test]
fn storable_token_has_88_chars_ending_in_padding() {
    for token in ["", "abc", "4e1c0f6a-1f3b-4c55-9d7e-0a8b2c3d4e5f", "héllo wörld"] {
        let stored = storable_token(token);
        assert_eq!(stored.len(), 88);
        assert!(stored.ends_with("=="));
        assert!(!stored[..86].contains('='));
        assert_eq!(storable_token(token), stored);
    }
}
