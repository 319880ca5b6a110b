use workspace_orchestrator::account_requests::{
    check_credentials, check_deletion, check_password, CreateUserRequest, LoginRequest,
    RefreshRequest, RegisterRequest, SetupStatusResponse, UpdateUserRequest,
};
use workspace_orchestrator::auth::{
    expiration_of, subject_of, AuthError, AuthUser, LocalAuthClaims, RefreshTokenClaims,
    TokenClaimsError, ACCESS_TOKEN_EXPIRY_SECS, REFRESH_TOKEN_EXPIRY_SECS,
};
use workspace_orchestrator::project::{
    CreateProject, CreateProjectRepo, SearchMatchType, SearchResult, UpdateProject,
};
use workspace_orchestrator::user::{
    CreateUser, UpdateUser, User, UserPublic, UserRole, UserSession,
};

fn user(role: &str) -> User {
    User {
        id: 1,
        username: "ada".to_string(),
        email: Some("ada@example.org".to_string()),
        password_hash: "hash".to_string(),
        role: role.to_string(),
        created_at: 1_700_000_000,
        updated_at: 1_700_000_100,
    }
}

#[test]
fn role_is_written_in_lower_case() {
    assert_eq!(UserRole::Admin.as_text(), "admin");
    assert_eq!(UserRole::User.as_text(), "user");
}

#[test]
fn role_is_read_in_any_case() {
    assert_eq!(UserRole::parse("admin"), Ok(UserRole::Admin));
    assert_eq!(UserRole::parse("ADMIN"), Ok(UserRole::Admin));
    assert_eq!(UserRole::parse("User"), Ok(UserRole::User));
    assert_eq!(UserRole::parse("root"), Err("Invalid role: root".to_string()));
    assert_eq!(UserRole::parse(""), Err("Invalid role: ".to_string()));
    assert_eq!(UserRole::parse(" admin"), Err("Invalid role:  admin".to_string()));
}

#[test]
fn first_registered_user_is_admin() {
    assert_eq!(UserRole::for_registration(0), UserRole::Admin);
    assert_eq!(UserRole::for_registration(1), UserRole::User);
    assert_eq!(UserRole::for_registration(-1), UserRole::User);
}

#[test]
fn user_with_unknown_role_is_a_plain_user() {
    assert_eq!(user("admin").role_enum(), UserRole::Admin);
    assert!(user("Admin").is_admin());
    assert_eq!(user("user").role_enum(), UserRole::User);
    assert_eq!(user("owner").role_enum(), UserRole::User);
    assert!(!user("owner").is_admin());
}

#[test]
fn public_user_drops_the_password_hash() {
    let public = UserPublic::from(user("admin"));
    assert_eq!(
        public,
        UserPublic {
            id: 1,
            username: "ada".to_string(),
            email: Some("ada@example.org".to_string()),
            role: "admin".to_string(),
            created_at: 1_700_000_000,
        }
    );
}

#[test]
fn update_keeps_what_is_left_out() {
    let nothing = UpdateUser { email: None, role: None };
    assert_eq!(nothing.merged_email(Some("old@example.org".to_string())), Some("old@example.org".to_string()));
    assert_eq!(nothing.merged_email(None), None);
    assert_eq!(nothing.merged_role("user".to_string()), "user");
    let both = UpdateUser { email: Some("new@example.org".to_string()), role: Some("admin".to_string()) };
    assert_eq!(both.merged_email(Some("old@example.org".to_string())), Some("new@example.org".to_string()));
    assert_eq!(both.merged_role("user".to_string()), "admin");
    let created = CreateUser { username: "ada".to_string(), email: None, password: "secret12".to_string() };
    assert_eq!(created.clone(), created);
}

#[test]
fn session_expires_after_its_time() {
    let session = UserSession {
        id: 1,
        user_id: 2,
        refresh_token: "token".to_string(),
        expires_at: 1000,
        created_at: 10,
    };
    assert!(!session.is_expired(999));
    assert!(!session.is_expired(1000));
    assert!(session.is_expired(1001));
}

#[test]
fn auth_errors_answer_with_401() {
    for (error, message) in [
        (AuthError::MissingToken, "Missing authorization token"),
        (AuthError::InvalidToken, "Invalid or expired token"),
        (AuthError::UserNotFound, "User not found"),
    ] {
        assert_eq!(error.status_code(), 401);
        assert_eq!(error.message(), message);
    }
}

#[test]
fn bearer_token_is_taken_from_the_header() {
    assert_eq!(AuthUser::bearer_token(None), Err(AuthError::MissingToken));
    assert_eq!(AuthUser::bearer_token(Some("Basic abc")), Err(AuthError::InvalidToken));
    assert_eq!(AuthUser::bearer_token(Some("bearer abc")), Err(AuthError::InvalidToken));
    assert_eq!(AuthUser::bearer_token(Some("Bearer")), Err(AuthError::InvalidToken));
    assert_eq!(AuthUser::bearer_token(Some("Bearer abc.def")), Ok("abc.def".to_string()));
    assert_eq!(AuthUser::bearer_token(Some("Bearer ")), Ok("".to_string()));
}

#[test]
fn user_is_read_from_valid_claims() {
    let claims = LocalAuthClaims {
        sub: "67e55044-10b1-426f-9247-bb680e5fe0c8".to_string(),
        username: "ada".to_string(),
        role: "admin".to_string(),
        exp: 2000,
        iat: 1000,
    };
    let user = AuthUser::from_claims(&claims).unwrap();
    assert_eq!(user.id, 0x67e5504410b1426f9247bb680e5fe0c8);
    assert_eq!(user.username, "ada");
    assert_eq!(user.role, UserRole::Admin);
    assert!(user.is_admin());
    let plain = AuthUser { id: 1, username: "bob".to_string(), role: UserRole::User };
    assert!(!plain.is_admin());
}

#[test]
fn claims_with_bad_subject_or_role_are_invalid() {
    let claims = |sub: &str, role: &str| LocalAuthClaims {
        sub: sub.to_string(),
        username: "ada".to_string(),
        role: role.to_string(),
        exp: 2000,
        iat: 1000,
    };
    assert_eq!(AuthUser::from_claims(&claims("not-a-uuid", "admin")), Err(AuthError::InvalidToken));
    assert_eq!(
        AuthUser::from_claims(&claims("67e55044-10b1-426f-9247-bb680e5fe0c8", "owner")),
        Err(AuthError::InvalidToken)
    );
}

#[test]
fn refresh_claims_are_told_by_their_type() {
    let claims = |token_type: &str| RefreshTokenClaims {
        sub: "id".to_string(),
        exp: 2,
        iat: 1,
        token_type: token_type.to_string(),
    };
    assert!(claims("refresh").is_refresh());
    assert!(!claims("access").is_refresh());
    assert!(!claims("Refresh").is_refresh());
}

#[test]
fn credentials_need_three_and_eight_bytes() {
    assert_eq!(check_credentials("ada", "12345678"), Ok(()));
    assert_eq!(
        check_credentials("ad", "12345678"),
        Err("Username must be at least 3 characters".to_string())
    );
    assert_eq!(
        check_credentials("", "1"),
        Err("Username must be at least 3 characters".to_string())
    );
    assert_eq!(
        check_credentials("ada", "1234567"),
        Err("Password must be at least 8 characters".to_string())
    );
    assert_eq!(check_credentials("\u{e9}a", "\u{e9}\u{e9}\u{e9}\u{e9}"), Ok(()));
    assert_eq!(check_password("12345678"), Ok(()));
    assert_eq!(
        check_password("short"),
        Err("Password must be at least 8 characters".to_string())
    );
}

#[test]
fn requests_are_checked_by_the_same_rules() {
    let register = RegisterRequest {
        username: "ab".to_string(),
        password: "12345678".to_string(),
        email: None,
    };
    assert_eq!(register.validate(), Err("Username must be at least 3 characters".to_string()));
    let create = CreateUserRequest {
        username: "abc".to_string(),
        password: "1234".to_string(),
        email: None,
        role: Some("admin".to_string()),
    };
    assert_eq!(create.validate(), Err("Password must be at least 8 characters".to_string()));
    assert_eq!(create.role(), UserRole::Admin);
    let plain = CreateUserRequest { role: Some("Admin".to_string()), password: "12345678".to_string(), ..create.clone() };
    assert_eq!(plain.validate(), Ok(()));
    assert_eq!(plain.role(), UserRole::User);
    let unset = CreateUserRequest { role: None, ..create };
    assert_eq!(unset.role(), UserRole::User);
    let login = LoginRequest { username: "ada".to_string(), password: "x".to_string() };
    assert_eq!(login.clone(), login);
    let refresh = RefreshRequest { refresh_token: "t".to_string() };
    assert_eq!(refresh.clone(), refresh);
}

#[test]
fn nobody_demotes_or_deletes_himself() {
    let demote = UpdateUserRequest { email: None, role: Some("user".to_string()), password: None };
    assert_eq!(demote.validate(7, 7), Err("Cannot demote yourself from admin".to_string()));
    assert_eq!(demote.validate(8, 7), Ok(()));
    let promote = UpdateUserRequest { email: None, role: Some("admin".to_string()), password: None };
    assert_eq!(promote.validate(7, 7), Ok(()));
    let weak = UpdateUserRequest { email: None, role: None, password: Some("short".to_string()) };
    assert_eq!(weak.validate(8, 7), Err("Password must be at least 8 characters".to_string()));
    let both = UpdateUserRequest { email: None, role: Some("user".to_string()), password: Some("short".to_string()) };
    assert_eq!(both.validate(7, 7), Err("Cannot demote yourself from admin".to_string()));
    assert_eq!(check_deletion(7, 7), Err("Cannot delete your own account".to_string()));
    assert_eq!(check_deletion(8, 7), Ok(()));
}

#[test]
fn setup_is_required_until_a_user_exists() {
    assert_eq!(SetupStatusResponse::for_count(0), SetupStatusResponse { setup_required: true, user_count: 0 });
    assert_eq!(SetupStatusResponse::for_count(3), SetupStatusResponse { setup_required: false, user_count: 3 });
}

#[test]
fn project_settings_keep_the_recorded_value_for_empty_text() {
    let recorded = Some("old".to_string());
    assert_eq!(UpdateProject::merged_setting(&Some("new".to_string()), recorded.clone()), Some("new".to_string()));
    assert_eq!(UpdateProject::merged_setting(&Some("".to_string()), recorded.clone()), recorded);
    assert_eq!(UpdateProject::merged_setting(&None, recorded.clone()), recorded);
    assert_eq!(UpdateProject::merged_setting(&Some("".to_string()), None), None);
    assert!(UpdateProject::merged_switch(Some(true), false));
    assert!(!UpdateProject::merged_switch(Some(false), true));
    assert!(UpdateProject::merged_switch(None, true));
    let update = UpdateProject {
        name: Some("renamed".to_string()),
        dev_script: None,
        dev_script_working_dir: None,
        default_agent_working_dir: None,
        github_repo_url: None,
        github_token: None,
        github_sync_enabled: None,
        github_sync_labels: None,
        gitlab_project_url: None,
        gitlab_token: None,
        gitlab_sync_enabled: None,
        gitlab_sync_labels: None,
    };
    assert_eq!(update.merged_name("old".to_string()), "renamed");
    let unnamed = UpdateProject { name: None, ..update };
    assert_eq!(unnamed.merged_name("old".to_string()), "old");
    let found = SearchResult { path: "src/lib.rs".to_string(), is_file: true, match_type: SearchMatchType::FileName };
    assert_eq!(found.clone(), found);
    let project = CreateProject {
        name: "board".to_string(),
        repositories: vec![CreateProjectRepo {
            display_name: "A".to_string(),
            git_repo_path: "/repos/A".to_string(),
        }],
    };
    assert_eq!(project.clone(), project);
    assert_eq!(project.repositories[0].git_repo_path, "/repos/A");
}

#[test]
fn claims_are_issued_for_their_time() {
    assert_eq!(ACCESS_TOKEN_EXPIRY_SECS, 15 * 60);
    assert_eq!(REFRESH_TOKEN_EXPIRY_SECS, 7 * 24 * 60 * 60);
    let access = LocalAuthClaims::issue(
        "id".to_string(),
        "ada".to_string(),
        "admin".to_string(),
        1_000,
        ACCESS_TOKEN_EXPIRY_SECS,
    );
    assert_eq!(
        access,
        LocalAuthClaims {
            sub: "id".to_string(),
            username: "ada".to_string(),
            role: "admin".to_string(),
            exp: 1_900,
            iat: 1_000,
        }
    );
    let refresh = RefreshTokenClaims::issue("id".to_string(), 1_000, REFRESH_TOKEN_EXPIRY_SECS);
    assert_eq!(
        refresh,
        RefreshTokenClaims {
            sub: "id".to_string(),
            exp: 605_800,
            iat: 1_000,
            token_type: "refresh".to_string(),
        }
    );
    assert_eq!(refresh.check_type(), Ok(()));
}

#[test]
fn claims_of_the_wrong_kind_or_without_subject_are_refused() {
    let access_as_refresh = RefreshTokenClaims {
        sub: "id".to_string(),
        exp: 2,
        iat: 1,
        token_type: "access".to_string(),
    };
    assert_eq!(access_as_refresh.check_type(), Err(TokenClaimsError::InvalidToken));
    assert_eq!(expiration_of(Some(17)), Ok(17));
    assert_eq!(expiration_of(None), Err(TokenClaimsError::MissingExpiration));
    assert_eq!(subject_of(None), Err(TokenClaimsError::MissingSubject));
    assert_eq!(
        subject_of(Some("nobody".to_string())),
        Err(TokenClaimsError::InvalidSubject("nobody".to_string()))
    );
    assert_eq!(
        subject_of(Some("67e5504410b1426f9247bb680e5fe0c8".to_string())),
        Ok(0x67e5504410b1426f9247bb680e5fe0c8)
    );
}
