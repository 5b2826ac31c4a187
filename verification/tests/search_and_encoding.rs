//! Search preparation and result reshaping, textual encodings, claims
//! bytes, mapping rules, providers, and the cli surface.

use rfd_api::authn::jwt::Claims;
use rfd_api::cli::cmd_path;
use rfd_api::cli::state_color;
use rfd_api::cli::CliCommand;
use rfd_api::encoding::parse_i32_digits;
use rfd_api::encoding::str_eq;
use rfd_api::login::provider_info;
use rfd_api::login::ConfiguredProvider;
use rfd_api::login::ExtractUserInfo;
use rfd_api::login::OAuthProviderName;
use rfd_api::mapper::EmailDomainMapper;
use rfd_api::mapper::MapperRule;
use rfd_api::login::UserInfo;
use rfd_api::login::ExternalId;
use rfd_api::model::Group;
use rfd_api::permissions::ApiPermission;
use rfd_api::permissions::Caller;
use rfd_api::permissions::Permissions;
use rfd_api::search::build_search_results;
use rfd_api::search::prepare_search;
use rfd_api::search::search_filter_for_caller;
use rfd_api::search::RawSearchHit;
use rfd_api::search::RawSearchResult;
use rfd_api::search::RawSearchResults;
use rfd_api::search::RfdSearchQuery;
use rfd_api::search::SearchError;
use rfd_api::trusted::hex_encode;
use rfd_api::trusted::uuid_parse;
use rfd_api::trusted::uuid_to_string;

fn caller_with(permissions: Vec<ApiPermission>) -> Caller {
    Caller { id: 99, permissions: Permissions::from_vec(permissions) }
}

fn query() -> RfdSearchQuery {
    RfdSearchQuery {
        q: "consensus".to_string(),
        limit: Some(10),
        offset: None,
        highlight_pre_tag: Some("<em>".to_string()),
        highlight_post_tag: Some("</em>".to_string()),
        attributes_to_crop: Some("content".to_string()),
    }
}

#[test]
fn global_readers_search_unfiltered() {
    let caller = caller_with(vec![ApiPermission::SearchRfds, ApiPermission::GetRfdsAll]);
    assert!(search_filter_for_caller(&caller).is_none());
}

#[test]
fn scoped_readers_get_public_plus_grants_filter() {
    let caller = caller_with(vec![
        ApiPermission::SearchRfds,
        ApiPermission::GetRfd(123),
        ApiPermission::GetRfd(456),
    ]);
    let filter = search_filter_for_caller(&caller).unwrap();
    assert_eq!(filter, "public = trueOR rfd_number in [123, 456]");
}

#[test]
fn readers_without_grants_get_public_filter() {
    let caller = caller_with(vec![ApiPermission::SearchRfds]);
    let filter = search_filter_for_caller(&caller).unwrap();
    assert_eq!(filter, "public = true");
}

#[test]
fn search_requires_the_search_tag() {
    let caller = caller_with(vec![ApiPermission::GetRfdsAll]);
    let result = prepare_search(&caller, query());
    assert!(matches!(result, Err(SearchError::Unauthorized)));
}

#[test]
fn prepared_search_carries_query_and_tags() {
    let caller = caller_with(vec![ApiPermission::SearchRfds, ApiPermission::GetRfdsAll]);
    let req = prepare_search(&caller, query()).unwrap();
    assert_eq!(req.q, "consensus");
    assert!(req.filter.is_none());
    assert_eq!(req.attributes_to_highlight, vec!["*".to_string()]);
    assert_eq!(req.highlight_pre_tag.as_deref(), Some("<em>"));
    assert_eq!(req.limit, Some(10));
}

#[test]
fn raw_hits_are_reshaped_field_for_field() {
    let raw = RawSearchResults {
        hits: vec![RawSearchHit {
            result: RawSearchResult {
                hierarchy_radio_lvl0: Some("r0".to_string()),
                hierarchy_radio_lvl1: None,
                hierarchy_radio_lvl2: None,
                hierarchy_radio_lvl3: None,
                hierarchy_radio_lvl4: None,
                hierarchy_radio_lvl5: None,
                hierarchy_lvl0: Some("h0".to_string()),
                hierarchy_lvl1: Some("h1".to_string()),
                hierarchy_lvl2: None,
                hierarchy_lvl3: None,
                hierarchy_lvl4: None,
                hierarchy_lvl5: None,
                content: "body".to_string(),
                object_id: "obj-1".to_string(),
                rfd_number: 123,
                anchor: Some("#a".to_string()),
                url: None,
            },
            formatted_result: None,
        }],
        query: "q".to_string(),
        limit: Some(20),
        offset: Some(0),
    };

    let results = build_search_results(raw);
    assert_eq!(results.hits.len(), 1);
    assert_eq!(results.query, "q");
    assert_eq!(results.limit, Some(20));
    let hit = &results.hits[0];
    assert_eq!(hit.content, "body");
    assert_eq!(hit.object_id, "obj-1");
    assert_eq!(hit.rfd_number, 123);
    assert_eq!(hit.hierarchy[0].as_deref(), Some("h0"));
    assert_eq!(hit.hierarchy[1].as_deref(), Some("h1"));
    assert_eq!(hit.hierarchy[2], None);
    assert_eq!(hit.hierarchy_radio[0].as_deref(), Some("r0"));
    assert!(hit.formatted.is_none());
}

#[test]
fn hex_encode_is_lowercase_two_digits_per_byte() {
    assert_eq!(hex_encode(&[0x00, 0xff, 0x1a]), "00ff1a");
}

#[test]
fn uuid_text_round_trips() {
    let id: u128 = 0x0011223344556677_8899aabbccddeeff;
    let text = uuid_to_string(id);
    assert_eq!(text.len(), 36);
    assert_eq!(uuid_parse(&text), Some(id));
}

#[test]
fn decimal_parsing_is_exact() {
    assert_eq!(parse_i32_digits("0123"), Some(123));
    assert_eq!(parse_i32_digits("0"), Some(0));
    assert_eq!(parse_i32_digits("2147483647"), Some(i32::MAX));
    assert_eq!(parse_i32_digits("2147483648"), None);
    assert_eq!(parse_i32_digits(""), None);
    assert_eq!(parse_i32_digits("12a"), None);
    assert_eq!(parse_i32_digits("-5"), None);
}

#[test]
fn str_eq_compares_by_characters() {
    assert!(str_eq("abc", "abc"));
    assert!(!str_eq("abc", "abd"));
    assert!(!str_eq("abc", "ab"));
}

#[test]
fn claims_encoding_is_canonical() {
    let claims = Claims {
        aud: 1,
        prm: Permissions::new(),
        exp: 2,
        nbf: 3,
        jti: 4,
    };
    let mut expected: Vec<u8> = Vec::new();
    expected.extend_from_slice(&1u128.to_be_bytes());
    expected.extend_from_slice(&2u64.to_be_bytes());
    expected.extend_from_slice(&3u64.to_be_bytes());
    expected.extend_from_slice(&4u128.to_be_bytes());
    assert_eq!(claims.encode(), expected);
}

#[test]
fn claims_validity_window_is_half_open() {
    let claims = Claims {
        aud: 1,
        prm: Permissions::new(),
        exp: 200,
        nbf: 100,
        jti: 4,
    };
    assert!(!claims.validate_at(99));
    assert!(claims.validate_at(100));
    assert!(claims.validate_at(199));
    assert!(!claims.validate_at(200));
}

#[test]
fn email_domain_mapper_grants_matching_groups() {
    let rule = EmailDomainMapper::new(
        "@example.com".to_string(),
        vec!["writers".to_string(), "readers".to_string()],
    );
    let user = UserInfo {
        external_id: ExternalId { provider: OAuthProviderName::Google, id: "u1".to_string() },
        verified_emails: vec!["person@example.com".to_string()],
    };
    let groups = vec![
        Group { id: 1, name: "writers".to_string() },
        Group { id: 2, name: "strangers".to_string() },
        Group { id: 3, name: "readers".to_string() },
    ];

    assert_eq!(rule.groups_for(&user, &groups), vec![1, 3]);
    assert!(rule.permissions_for(&user).is_empty());

    let outsider = UserInfo {
        external_id: ExternalId { provider: OAuthProviderName::Google, id: "u2".to_string() },
        verified_emails: vec!["person@other.com".to_string()],
    };
    assert!(rule.groups_for(&outsider, &groups).is_empty());
}

#[test]
fn email_address_mapper_grants_configured_permissions() {
    let rule = rfd_api::mapper::email_address::EmailDomainMapper::new(
        "admin@example.com".to_string(),
        Permissions::from_vec(vec![ApiPermission::GetRfdsAll]),
        vec!["admins".to_string()],
    );
    let user = UserInfo {
        external_id: ExternalId { provider: OAuthProviderName::Google, id: "u1".to_string() },
        verified_emails: vec!["admin@example.com".to_string()],
    };
    let groups = vec![Group { id: 9, name: "admins".to_string() }];

    assert!(rule.permissions_for(&user).can(&ApiPermission::GetRfdsAll));
    assert_eq!(rule.groups_for(&user, &groups), vec![9]);

    let other = UserInfo {
        external_id: ExternalId { provider: OAuthProviderName::Google, id: "u2".to_string() },
        verified_emails: vec!["someone@example.com".to_string()],
    };
    assert!(rule.permissions_for(&other).is_empty());
}

fn provider() -> ConfiguredProvider {
    ConfiguredProvider {
        provider: OAuthProviderName::Google,
        client_id: "client-1".to_string(),
        client_secret: Some("not-a-real-secret".to_string()),
        user_info_endpoint: "https://remote/userinfo".to_string(),
        device_code_endpoint: "https://remote/device".to_string(),
        auth_url_endpoint: "https://remote/auth".to_string(),
        token_exchange_content_type: "application/json".to_string(),
        token_exchange_endpoint: "https://remote/token".to_string(),
        scopes: vec!["openid".to_string(), "email".to_string()],
    }
}

#[test]
fn provider_info_mounts_token_endpoint_under_public_url() {
    let info = provider_info(&provider(), "https://api.example");
    assert_eq!(info.client_id, "client-1");
    assert_eq!(
        info.token_endpoint,
        "https://api.example/login/oauth/google/device/exchange"
    );
    assert_eq!(info.scopes, vec!["openid".to_string(), "email".to_string()]);
}

#[test]
fn user_info_extraction_reads_id_then_emails() {
    let p = provider();
    let info = p.extract_user_info("remote-id-1\none@example.com\ntwo@example.com").unwrap();
    assert_eq!(info.external_id.id, "remote-id-1");
    assert_eq!(
        info.verified_emails,
        vec!["one@example.com".to_string(), "two@example.com".to_string()]
    );

    assert!(p.extract_user_info("").is_err());
}

#[test]
fn user_info_extraction_skips_blank_lines() {
    let p = provider();
    let info = p.extract_user_info("\n\nremote-id-2\n\nonly@example.com\n").unwrap();
    assert_eq!(info.external_id.id, "remote-id-2");
    assert_eq!(info.verified_emails, vec!["only@example.com".to_string()]);

    assert!(p.extract_user_info("\n\n\n").is_err());
}

#[test]
fn cmd_paths_cover_the_offered_commands() {
    assert_eq!(cmd_path(&CliCommand::GetRfds), Some("rfd list"));
    assert_eq!(cmd_path(&CliCommand::SearchRfds), Some("rfd search"));
    assert_eq!(cmd_path(&CliCommand::CreateApiUserToken), Some("user token create"));
    assert_eq!(cmd_path(&CliCommand::AuthzCodeExchange), None);
}

#[test]
fn state_colors_follow_the_rfd_state() {
    assert_eq!(state_color(&Some("published".to_string())), "\x1b[38;2;72;213;151m");
    assert_eq!(state_color(&Some("ideation".to_string())), "\x1b[38;2;245;185;68m");
    assert_eq!(state_color(&Some("unheard-of".to_string())), "\x1b[38;2;231;231;232m");
    assert_eq!(state_color(&None), "\x1b[38;2;231;231;232m");
}
