use dnote::upgrade::{Github, Locked, Original, SourceType};

#[test]
fn github_url_formats_correctly_ref_some() {
    let orig = &Original {
        owner: "nixos".to_string(),
        _ref: Some("some_ref".to_string()),
        repo: "nixpkgs".to_string(),
        _type: SourceType::GitHub,
    };
    let lock = &Locked {
        last_modified: 12345,
        nar_hash: "some_hash".to_string(),
        owner: "nixos".to_string(),
        repo: "nixpkgs".to_string(),
        rev: "some_rev".to_string(),
        _type: SourceType::GitHub,
    };
    let gh = Github {
        use_cli: false,
        lock,
        orig,
    };
    let expected = "repos/nixos/nixpkgs/compare/some_rev...some_ref".to_string();
    assert_eq!(gh.generate_enpoint(), expected);
}

#[test]
fn github_url_formats_correctly_ref_none() {
    let orig = &Original {
        owner: "nixos".to_string(),
        _ref: None,
        repo: "nixpkgs".to_string(),
        _type: SourceType::GitHub,
    };
    let lock = &Locked {
        last_modified: 12345,
        nar_hash: "some_hash".to_string(),
        owner: "nixos".to_string(),
        repo: "nixpkgs".to_string(),
        rev: "some_rev".to_string(),
        _type: SourceType::GitHub,
    };
    let gh = Github {
        use_cli: false,
        lock,
        orig,
    };
    let expected = "repos/nixos/nixpkgs/compare/some_rev...HEAD".to_string();
    assert_eq!(gh.generate_enpoint(), expected);
}

#[test]
fn gitlab_sources_carry_their_own_tag() {
    let lock = Locked {
        last_modified: 1,
        nar_hash: String::new(),
        owner: "o".to_string(),
        repo: "r".to_string(),
        rev: "v".to_string(),
        _type: SourceType::GitLab,
    };
    assert!(matches!(lock._type, SourceType::GitLab));
}
