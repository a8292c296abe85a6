use dev_sync::rsync_cli::{RsyncFlag, RsyncOption};
use dev_sync::rsyncer::{
    fill_control_paths, generate_control_path, generate_session_id, is_generate_option, RsyncGlobalProperties, RsyncProperties,
    SSHAdditionalProperties, SSHProperties,
};
use dev_sync::ssh::SSHOption;

#[test]
fn test_sshproperties_merge() {
    let props = SSHProperties {
        options: Some(vec![
            SSHOption::ConnectTimeout(20),
            SSHOption::IdentityFile(".ssh/secret-pem".to_string()),
        ]),
    };
    let additional_props = SSHAdditionalProperties {
        additional_options: Some(vec![
            SSHOption::ServerAliveInterval(10),
            SSHOption::ConnectTimeout(30),
        ]),
    };
    let final_props = props.merge(Some(&additional_props));
    let final_props_options = final_props.options.as_ref().unwrap();
    assert!(final_props_options.contains(&SSHOption::ConnectTimeout(30)));
    assert!(final_props_options.contains(&SSHOption::IdentityFile(".ssh/secret-pem".to_string())));
    assert!(final_props_options.contains(&SSHOption::ServerAliveInterval(10)))
}

#[test]
fn test_sshproperties_merge_with_no_options() {
    let props = SSHProperties { options: None };
    let additional_props = SSHAdditionalProperties { additional_options: None };
    let final_props = props.merge(Some(&additional_props));
    assert_eq!(final_props.options, None);
}

#[test]
fn merge_puts_workspace_options_first() {
    let props = SSHProperties { options: Some(vec![SSHOption::ConnectTimeout(3)]) };
    let added = SSHAdditionalProperties {
        additional_options: Some(vec![SSHOption::ConnectTimeout(5)]),
    };
    let merged = props.merge(Some(&added));
    assert_eq!(
        merged.options,
        Some(vec![SSHOption::ConnectTimeout(5), SSHOption::ConnectTimeout(3)])
    );
    assert_eq!(props.merge(None), props);
    let only_added = SSHProperties { options: None }.merge(Some(&added));
    assert_eq!(only_added.options, Some(vec![SSHOption::ConnectTimeout(5)]));
    let nothing_added = props.merge(Some(&SSHAdditionalProperties { additional_options: None }));
    assert_eq!(nothing_added.options, Some(vec![SSHOption::ConnectTimeout(3)]));
}

#[test]
fn test_sshproperties_as_shell() {
    let props = SSHProperties {
        options: Some(vec![
            SSHOption::ConnectTimeout(20),
            SSHOption::IdentityFile(".ssh/secret-pem".to_string()),
            SSHOption::ControlPath("GENERATE".to_string()),
        ]),
    };
    let shell = props.as_shell().unwrap();
    let cp = shell.options.iter().find(|opt| match opt {
        SSHOption::ControlPath(x) => x.contains(".ssh/rust-dev-sync-"),
        _ => false,
    });
    assert!(
        cp.is_some(),
        "SSHShell should have a control-path option with a properly generated path"
    );
}

#[test]
fn as_shell_keeps_other_options_in_place() {
    let props = SSHProperties {
        options: Some(vec![
            SSHOption::ControlPath("/tmp/cp".to_string()),
            SSHOption::PasswordAuthentication(false),
        ]),
    };
    let shell = props.as_shell().unwrap();
    assert_eq!(
        shell.options,
        vec![
            SSHOption::ControlPath("/tmp/cp".to_string()),
            SSHOption::PasswordAuthentication(false)
        ]
    );
    assert_eq!(SSHProperties { options: None }.as_shell().unwrap().options, vec![]);
}

#[test]
fn session_id_is_seven_alphanumerics() {
    let id = generate_session_id();
    assert_eq!(id.chars().count(), 7);
    assert!(id.chars().all(|c| c.is_ascii_alphanumeric()));
}

#[test]
fn control_path_sits_under_home_ssh_dir() {
    assert_eq!(generate_control_path("/home/me", "abc1234"), "/home/me/.ssh/rust-dev-sync-abc1234");
    assert_eq!(generate_control_path("/home/me/", "XYZ0000"), "/home/me/.ssh/rust-dev-sync-XYZ0000");
}

#[test]
fn test_rsyncproperties_as_syncer() {
    let props = RsyncProperties {
        dst_host: Some("override-host".to_string()),
        dst_dir: "/remote/dir".to_string(),
        additional_flags: Some(vec![RsyncFlag::IncludeLinks]),
        additional_excludes: Some(vec!["additional-exclude-1".to_string()]),
        ssh: Some(SSHAdditionalProperties {
            additional_options: Some(vec![
                SSHOption::ConnectTimeout(5),
                SSHOption::PasswordAuthentication(false),
            ]),
        }),
    };
    let global_props = RsyncGlobalProperties {
        default_dst_host: Some("default-host".to_string()),
        excludes: Some(vec!["global-exclude-1".to_string(), "global-exclude-2".to_string()]),
        flags: Some(vec![RsyncFlag::Recursive, RsyncFlag::DeleteAfter]),
        ssh: Some(SSHProperties {
            options: Some(vec![SSHOption::ConnectTimeout(3), SSHOption::ServerAliveCountMax(12)]),
        }),
    };
    let rsyncer = props.as_syncer(Some(&global_props)).unwrap();
    let rsyncer_options = rsyncer.options;
    assert!(rsyncer_options.contains(&RsyncOption::Exclude("additional-exclude-1".to_string())));
    assert!(rsyncer_options.contains(&RsyncOption::Exclude("global-exclude-1".to_string())));
    assert!(rsyncer_options.contains(&RsyncOption::Exclude("global-exclude-2".to_string())));
    let rsyncer_flags = rsyncer.flags;
    assert!(rsyncer_flags.contains(&RsyncFlag::Recursive));
    assert!(rsyncer_flags.contains(&RsyncFlag::DeleteAfter));
    assert!(rsyncer_flags.contains(&RsyncFlag::IncludeLinks));
    assert_eq!(rsyncer.dst_host.unwrap(), "override-host".to_string());
    assert_eq!(rsyncer.dst_dir, "/remote/dir");
    let rsyncer_ssh = rsyncer.shell.as_ref().unwrap();
    assert!(rsyncer_ssh.options.contains(&SSHOption::ConnectTimeout(5)));
    assert!(rsyncer_ssh.options.contains(&SSHOption::PasswordAuthentication(false)));
    assert!(rsyncer_ssh.options.contains(&SSHOption::ServerAliveCountMax(12)));
}

#[test]
fn test_rsyncproperties_as_syncer_when_no_defaults() {
    let props = RsyncProperties {
        dst_host: Some("override-host".to_string()),
        dst_dir: "/remote/dir".to_string(),
        additional_flags: Some(vec![RsyncFlag::IncludeLinks]),
        additional_excludes: Some(vec!["additional-exclude-1".to_string()]),
        ssh: Some(SSHAdditionalProperties {
            additional_options: Some(vec![
                SSHOption::ConnectTimeout(5),
                SSHOption::PasswordAuthentication(false),
            ]),
        }),
    };
    let global_props = RsyncGlobalProperties {
        default_dst_host: None,
        excludes: None,
        flags: None,
        ssh: None,
    };
    let rsyncer = props.as_syncer(Some(&global_props)).unwrap();
    let rsyncer_options = rsyncer.options;
    assert!(rsyncer_options.contains(&RsyncOption::Exclude("additional-exclude-1".to_string())));
    let rsyncer_flags = rsyncer.flags;
    assert!(rsyncer_flags.contains(&RsyncFlag::IncludeLinks));
    assert_eq!(rsyncer.dst_host.unwrap(), "override-host".to_string());
    assert_eq!(rsyncer.dst_dir, "/remote/dir");
    let rsyncer_ssh = rsyncer.shell.as_ref().unwrap();
    assert!(rsyncer_ssh.options.contains(&SSHOption::ConnectTimeout(5)));
    assert!(rsyncer_ssh.options.contains(&SSHOption::PasswordAuthentication(false)));
}

#[test]
fn test_rsyncproperties_as_syncer_when_no_overrides() {
    let props = RsyncProperties {
        dst_host: None,
        dst_dir: "/remote/dir".to_string(),
        additional_flags: None,
        additional_excludes: None,
        ssh: None,
    };
    let global_props = RsyncGlobalProperties {
        default_dst_host: Some("default-host".to_string()),
        excludes: Some(vec!["global-exclude-1".to_string(), "global-exclude-2".to_string()]),
        flags: Some(vec![RsyncFlag::Recursive, RsyncFlag::DeleteAfter]),
        ssh: Some(SSHProperties {
            options: Some(vec![SSHOption::ConnectTimeout(3), SSHOption::ServerAliveCountMax(12)]),
        }),
    };
    let rsyncer = props.as_syncer(Some(&global_props)).unwrap();
    let rsyncer_options = rsyncer.options;
    assert!(rsyncer_options.contains(&RsyncOption::Exclude("global-exclude-1".to_string())));
    assert!(rsyncer_options.contains(&RsyncOption::Exclude("global-exclude-2".to_string())));
    let rsyncer_flags = rsyncer.flags;
    assert!(rsyncer_flags.contains(&RsyncFlag::Recursive));
    assert!(rsyncer_flags.contains(&RsyncFlag::DeleteAfter));
    assert_eq!(rsyncer.dst_host.unwrap(), "default-host".to_string());
    assert_eq!(rsyncer.dst_dir, "/remote/dir");
    let rsyncer_ssh = rsyncer.shell.as_ref().unwrap();
    assert!(rsyncer_ssh.options.contains(&SSHOption::ConnectTimeout(3)));
    assert!(rsyncer_ssh.options.contains(&SSHOption::ServerAliveCountMax(12)));
}

#[test]
fn merge_order_workspace_then_global() {
    let props = RsyncProperties {
        dst_host: None,
        dst_dir: "/d".to_string(),
        additional_flags: Some(vec![RsyncFlag::Verbose]),
        additional_excludes: Some(vec!["w".to_string()]),
        ssh: Some(SSHAdditionalProperties {
            additional_options: Some(vec![SSHOption::ConnectTimeout(5)]),
        }),
    };
    let global_props = RsyncGlobalProperties {
        default_dst_host: None,
        excludes: Some(vec!["g".to_string()]),
        flags: Some(vec![RsyncFlag::Compress]),
        ssh: Some(SSHProperties { options: Some(vec![SSHOption::ConnectTimeout(3)]) }),
    };
    let r = props.as_syncer(Some(&global_props)).unwrap();
    assert_eq!(r.flags, vec![RsyncFlag::Verbose, RsyncFlag::Compress]);
    assert_eq!(
        r.options,
        vec![RsyncOption::Exclude("w".to_string()), RsyncOption::Exclude("g".to_string())]
    );
    assert_eq!(r.dst_host, None);
    assert_eq!(
        r.shell.unwrap().options,
        vec![SSHOption::ConnectTimeout(5), SSHOption::ConnectTimeout(3)]
    );
}

#[test]
fn no_ssh_anywhere_means_no_shell() {
    let props = RsyncProperties {
        dst_host: None,
        dst_dir: "/d".to_string(),
        additional_flags: None,
        additional_excludes: None,
        ssh: None,
    };
    let r = props.as_syncer(None).unwrap();
    assert!(r.shell.is_none());
    assert!(r.flags.is_empty());
    assert!(r.options.is_empty());
    assert_eq!(r.dst_host, None);
    let with_ssh = RsyncProperties {
        ssh: Some(SSHAdditionalProperties { additional_options: None }),
        ..props
    };
    let r2 = with_ssh.as_syncer(None).unwrap();
    assert_eq!(r2.shell.unwrap().options, vec![]);
}

#[test]
fn placeholders_filled_in_order_from_given_ids() {
    let opts = vec![
        SSHOption::ControlPath("GENERATE".to_string()),
        SSHOption::ConnectTimeout(3),
        SSHOption::ControlPath("GENERATE".to_string()),
        SSHOption::ControlPath("/keep".to_string()),
    ];
    let ids = vec!["aaaaaaa".to_string(), "bbbbbbb".to_string()];
    assert_eq!(
        fill_control_paths(&opts, "/home/me", &ids),
        vec![
            SSHOption::ControlPath("/home/me/.ssh/rust-dev-sync-aaaaaaa".to_string()),
            SSHOption::ConnectTimeout(3),
            SSHOption::ControlPath("/home/me/.ssh/rust-dev-sync-bbbbbbb".to_string()),
            SSHOption::ControlPath("/keep".to_string()),
        ]
    );
    assert!(is_generate_option(&opts[0]));
    assert!(!is_generate_option(&opts[3]));
}

#[test]
fn each_placeholder_gets_its_own_session() {
    let props = SSHProperties {
        options: Some(vec![
            SSHOption::ControlPath("GENERATE".to_string()),
            SSHOption::ControlPath("GENERATE".to_string()),
        ]),
    };
    let shell = props.as_shell().unwrap();
    assert_eq!(shell.options.len(), 2);
    for opt in &shell.options {
        match opt {
            SSHOption::ControlPath(p) => {
                let id = p.rsplit("rust-dev-sync-").next().unwrap();
                assert!(p.contains("/.ssh/rust-dev-sync-"));
                assert_eq!(id.len(), 7);
            }
            _ => panic!("expected a control path"),
        }
    }
}
