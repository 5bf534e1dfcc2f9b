use std::collections::HashMap;

use dockshell::connections::ConnectionInfo;
use dockshell::docker::{
    client_plan, container_action, container_info_from, format_port, image_prune_result,
    port_binding_plan, prune_result, ClientPlan, ContainerAction, ContainerRecord,
    ImageDeleteRecord, MountRecord, PortMapping, PortRecord,
};
use dockshell::inspect::{
    container_detail_from, HostBindingRecord, InspectRecord, MountDetailRecord, PortMapRecord,
};
use dockshell::networks::{
    ensure_removable, is_builtin_network, network_info_from, AttachmentRecord, NetworkRecord,
};
use dockshell::volumes::{volume_infos, VolumeRecord};

fn tls_conn(cert: Option<&str>, ca: Option<&str>) -> ConnectionInfo {
    ConnectionInfo {
        id: "docker-rs-tls-test".into(),
        name: "remote".into(),
        endpoint: "tcp://192.168.1.105:2376".into(),
        use_tls: true,
        client_cert_path: cert.map(String::from),
        ca_cert_path: ca.map(String::from),
    }
}

fn summary(id: &str, names: &[&str]) -> ContainerRecord {
    ContainerRecord {
        id: Some(id.to_string()),
        names: Some(names.iter().map(|n| n.to_string()).collect()),
        image: Some("portainer/portainer-ce:latest".into()),
        state: Some("running".into()),
        status: Some("Up 3 days".into()),
        ports: None,
        mounts: None,
    }
}

#[test]
fn rejects_removing_a_builtin_network() {
    for name in ["bridge", "host", "none"] {
        let err = ensure_removable(name).unwrap_err();
        assert!(err.contains(name));
    }
}

#[test]
fn accepts_removing_a_user_network() {
    assert!(ensure_removable("my-net").is_ok());
}

#[test]
fn remove_network_rejects_a_builtin_network_without_calling_the_engine() {
    let err = ensure_removable("bridge").unwrap_err();
    assert!(err.contains("bridge"));
    assert_eq!(err, "cannot remove the built-in \"bridge\" network");
}

#[test]
fn builtin_network_names_are_exact() {
    assert!(is_builtin_network("host"));
    assert!(!is_builtin_network("hostx"));
    assert!(!is_builtin_network("Bridge"));
    assert!(!is_builtin_network(""));
}

#[test]
fn requires_a_client_cert_path() {
    let err = client_plan(&tls_conn(None, Some("/ca.pem"))).unwrap_err();
    assert!(err.contains("client certificate path"));
}

#[test]
fn requires_a_ca_cert_path() {
    let err = client_plan(&tls_conn(Some("/cert.pem"), None)).unwrap_err();
    assert!(err.contains("CA certificate path"));
}

#[test]
fn client_plan_for_each_kind_of_connection() {
    let mut local = tls_conn(None, None);
    local.endpoint = "local".into();
    assert_eq!(client_plan(&local), Ok(ClientPlan::LocalDefaults));

    let both = tls_conn(Some("/cert.pem"), Some("/ca.pem"));
    assert_eq!(
        client_plan(&both),
        Ok(ClientPlan::Tls {
            endpoint: "tcp://192.168.1.105:2376".into(),
            client_cert_path: "/cert.pem".into(),
            ca_cert_path: "/ca.pem".into(),
            connection_id: "docker-rs-tls-test".into(),
        })
    );

    let mut plain = tls_conn(None, None);
    plain.use_tls = false;
    assert_eq!(
        client_plan(&plain),
        Ok(ClientPlan::Http {
            endpoint: "tcp://192.168.1.105:2376".into()
        })
    );

    // Missing both: the client certificate is reported first.
    let err = client_plan(&tls_conn(None, None)).unwrap_err();
    assert_eq!(err, "TLS is enabled but no client certificate path is set");
}

#[test]
fn lists_containers_from_engine_api() {
    let mut rec = summary("abc123", &["/portainer"]);
    rec.ports = Some(vec![PortRecord {
        private_port: 9000,
        public_port: Some(9000),
    }]);
    let c = container_info_from(rec);
    assert_eq!(c.id, "abc123");
    assert_eq!(c.name, "portainer"); // leading slash stripped
    assert_eq!(c.image, "portainer/portainer-ce:latest");
    assert_eq!(c.state, "running");
    assert_eq!(c.ports, vec!["9000:9000"]);
}

#[test]
fn unpublished_ports_are_left_out_and_absent_fields_are_empty() {
    let rec = ContainerRecord {
        id: None,
        names: Some(vec!["//double".into(), "/second".into()]),
        image: None,
        state: None,
        status: None,
        ports: Some(vec![
            PortRecord { private_port: 80, public_port: None },
            PortRecord { private_port: 443, public_port: Some(8443) },
            PortRecord { private_port: 0, public_port: Some(65535) },
        ]),
        mounts: None,
    };
    let c = container_info_from(rec);
    assert_eq!(c.id, "");
    assert_eq!(c.name, "double");
    assert_eq!(c.image, "");
    assert_eq!(c.ports, vec!["8443:443", "65535:0"]);
}

#[test]
fn port_text_is_decimal() {
    assert_eq!(format_port(0, 7), "0:7");
    assert_eq!(format_port(10, 100), "10:100");
    assert_eq!(format_port(65535, 1024), "65535:1024");
}

#[test]
fn container_start_stop_restart() {
    assert_eq!(container_action("start"), Ok(ContainerAction::Start));
    assert_eq!(container_action("stop"), Ok(ContainerAction::Stop));
    assert_eq!(container_action("restart"), Ok(ContainerAction::Restart));
}

#[test]
fn unknown_action_is_rejected_without_a_request() {
    assert!(container_action("explode").is_err());
    assert_eq!(
        container_action("explode").unwrap_err(),
        "unknown container action: explode"
    );
    assert!(container_action("Start").is_err());
}

#[test]
fn creates_and_starts_a_container_via_engine_api() {
    let ports = vec![PortMapping {
        host: "8080".into(),
        container: "80".into(),
    }];
    let plan = port_binding_plan(&ports);
    assert_eq!(plan, vec![("80/tcp".to_string(), "8080".to_string())]);
}

#[test]
fn inspects_container_from_engine_api() {
    let mut labels = HashMap::new();
    labels.insert("com.example".to_string(), "1".to_string());
    let rec = InspectRecord {
        id: Some("abc123".into()),
        name: Some("/portainer".into()),
        created: Some("2026-07-01T12:00:00Z".into()),
        image: Some("sha256:deadbeef".into()),
        config_image: Some("portainer/portainer-ce:latest".into()),
        env: Some(vec!["FOO=bar".into()]),
        labels: Some(labels),
        state: Some("running".into()),
        health: Some("healthy".into()),
        restart_policy: Some("unless-stopped".into()),
        mounts: Some(vec![MountDetailRecord {
            source: Some("/data".into()),
            destination: Some("/var/lib/portainer".into()),
            mode: Some("rw".into()),
        }]),
        ports: Some(vec![PortMapRecord {
            container_port: "9000/tcp".into(),
            bindings: Some(vec![HostBindingRecord {
                host_ip: Some("0.0.0.0".into()),
                host_port: Some("9000".into()),
            }]),
        }]),
    };
    let detail = container_detail_from(rec);

    assert_eq!(detail.id, "abc123");
    assert_eq!(detail.name, "portainer"); // leading slash stripped
    assert_eq!(detail.image, "portainer/portainer-ce:latest");
    assert_eq!(detail.state, "running");
    assert_eq!(detail.health.as_deref(), Some("healthy"));
    assert_eq!(detail.restart_policy, "unless-stopped");
    assert_eq!(detail.env, vec!["FOO=bar".to_string()]);
    assert_eq!(detail.labels.get("com.example"), Some(&"1".to_string()));
    assert_eq!(detail.mounts.len(), 1);
    assert_eq!(detail.mounts[0].source, "/data");
    assert_eq!(detail.mounts[0].destination, "/var/lib/portainer");
    assert_eq!(detail.mounts[0].mode, "rw");
    assert_eq!(detail.ports.len(), 1);
    assert_eq!(detail.ports[0].container_port, "9000/tcp");
    assert_eq!(detail.ports[0].host_ip, "0.0.0.0");
    assert_eq!(detail.ports[0].host_port, "9000");
    assert!(detail.created.starts_with("2026-07-01"));
}

#[test]
fn inspect_with_nothing_reported_gives_empty_fields() {
    let rec = InspectRecord {
        id: None,
        name: None,
        created: None,
        image: Some("sha256:deadbeef".into()),
        config_image: None,
        env: None,
        labels: None,
        state: None,
        health: None,
        restart_policy: None,
        mounts: None,
        ports: Some(vec![
            PortMapRecord { container_port: "80/tcp".into(), bindings: None },
            PortMapRecord {
                container_port: "53/udp".into(),
                bindings: Some(vec![
                    HostBindingRecord { host_ip: None, host_port: Some("53".into()) },
                    HostBindingRecord { host_ip: Some("::".into()), host_port: None },
                ]),
            },
        ]),
    };
    let d = container_detail_from(rec);
    assert_eq!(d.name, "");
    assert_eq!(d.image, "");
    assert_eq!(d.health, None);
    assert!(d.labels.is_empty());
    assert!(d.env.is_empty());
    assert!(d.mounts.is_empty());
    assert_eq!(d.ports.len(), 2);
    assert_eq!(d.ports[0].container_port, "53/udp");
    assert_eq!(d.ports[0].host_ip, "");
    assert_eq!(d.ports[0].host_port, "53");
    assert_eq!(d.ports[1].host_ip, "::");
    assert_eq!(d.ports[1].host_port, "");
}

#[test]
fn prunes_containers_via_engine_api() {
    let result = prune_result(Some(vec!["abc123".into(), "def456".into()]), Some(4096));
    assert_eq!(result.deleted, vec!["abc123".to_string(), "def456".to_string()]);
    assert_eq!(result.space_reclaimed, Some(4096));
}

#[test]
fn prunes_images_via_engine_api() {
    let result = image_prune_result(
        Some(vec![
            ImageDeleteRecord { deleted: Some("sha256:abc123".into()), untagged: None },
            ImageDeleteRecord { deleted: None, untagged: Some("old:tag".into()) },
        ]),
        Some(8192),
    );
    assert_eq!(
        result.deleted,
        vec!["sha256:abc123".to_string(), "old:tag".to_string()]
    );
    assert_eq!(result.space_reclaimed, Some(8192));
}

#[test]
fn image_prune_prefers_the_digest_and_skips_empty_entries() {
    let result = image_prune_result(
        Some(vec![
            ImageDeleteRecord { deleted: Some("sha256:1".into()), untagged: Some("t:1".into()) },
            ImageDeleteRecord { deleted: None, untagged: None },
        ]),
        None,
    );
    assert_eq!(result.deleted, vec!["sha256:1".to_string()]);
    assert_eq!(image_prune_result(None, Some(0)).deleted, Vec::<String>::new());
}

#[test]
fn prunes_volumes_via_engine_api() {
    let result = prune_result(Some(vec!["data".into()]), Some(1024));
    assert_eq!(result.deleted, vec!["data".to_string()]);
    assert_eq!(result.space_reclaimed, Some(1024));
}

#[test]
fn prunes_networks_via_engine_api() {
    let result = prune_result(Some(vec!["custom-net".into()]), None);
    assert_eq!(result.deleted, vec!["custom-net".to_string()]);
    assert_eq!(result.space_reclaimed, None);
    assert!(prune_result(None, None).deleted.is_empty());
}

fn volume(name: &str) -> VolumeRecord {
    VolumeRecord {
        name: name.into(),
        driver: "local".into(),
        mountpoint: format!("/var/lib/docker/volumes/{name}/_data"),
        created: Some("2026-07-01T12:00:00Z".into()),
        labels: HashMap::new(),
    }
}

#[test]
fn lists_volumes_and_cross_references_container_mounts() {
    let mut c = summary("abc123", &["/portainer"]);
    c.mounts = Some(vec![
        MountRecord { is_volume: true, name: Some("data".into()) },
        MountRecord { is_volume: false, name: None },
    ]);
    let volumes = volume_infos(vec![volume("data"), volume("unused")], &vec![c]);

    assert_eq!(volumes.len(), 2);
    let data = volumes.iter().find(|v| v.name == "data").unwrap();
    assert_eq!(data.driver, "local");
    assert_eq!(data.mountpoint, "/var/lib/docker/volumes/data/_data");
    assert_eq!(data.used_by, vec!["portainer".to_string()]);
    let unused = volumes.iter().find(|v| v.name == "unused").unwrap();
    assert!(unused.used_by.is_empty());
}

#[test]
fn volume_users_follow_container_order_and_bind_mounts_do_not_count() {
    let mut a = summary("a", &["/web"]);
    a.mounts = Some(vec![
        MountRecord { is_volume: true, name: Some("data".into()) },
        MountRecord { is_volume: false, name: Some("data".into()) },
    ]);
    let mut b = summary("b", &[]);
    b.mounts = Some(vec![MountRecord { is_volume: true, name: Some("data".into()) }]);
    let mut c = summary("c", &["/db"]);
    c.mounts = Some(vec![MountRecord { is_volume: true, name: Some("data".into()) }]);
    let mut v = volume("data");
    v.created = None;
    let rows = volume_infos(vec![v, volume("data")], &vec![a, b, c]);
    assert_eq!(rows[0].used_by, vec!["web".to_string(), "".to_string(), "db".to_string()]);
    assert_eq!(rows[0].created, "");
    // A second volume of the same name lists no users.
    assert!(rows[1].used_by.is_empty());
}

#[test]
fn lists_networks_with_attachments_from_engine_api() {
    let bridge = network_info_from(
        NetworkRecord {
            id: Some("b1".into()),
            name: Some("bridge".into()),
            driver: Some("bridge".into()),
            scope: Some("local".into()),
            subnets: Some(vec![Some("172.17.0.0/16".into())]),
        },
        Some(vec![]),
    );
    let app_net = network_info_from(
        NetworkRecord {
            id: Some("n1".into()),
            name: Some("app-net".into()),
            driver: Some("bridge".into()),
            scope: Some("local".into()),
            subnets: Some(vec![Some("172.20.0.0/16".into())]),
        },
        Some(vec![AttachmentRecord {
            name: Some("portainer".into()),
            ipv4_address: Some("172.20.0.2/16".into()),
        }]),
    );
    assert!(bridge.is_builtin);
    assert!(bridge.attachments.is_empty());
    assert!(!app_net.is_builtin);
    assert_eq!(app_net.subnet, "172.20.0.0/16");
    assert_eq!(app_net.attachments.len(), 1);
    assert_eq!(app_net.attachments[0].container, "portainer");
    assert_eq!(app_net.attachments[0].ip, "172.20.0.2/16");
}

#[test]
fn network_without_ipam_config_has_an_empty_subnet() {
    let n = network_info_from(
        NetworkRecord { id: None, name: None, driver: None, scope: None, subnets: Some(vec![None, Some("10.0.0.0/8".into())]) },
        None,
    );
    assert_eq!(n.subnet, "");
    assert_eq!(n.name, "");
    assert!(!n.is_builtin);
    assert!(n.attachments.is_empty());
}

#[test]
fn ping_reports_engine_version() {
    let msg = dockshell::docker::engine_version_text(Some("27.3.1".into()), Some("1.47".into()));
    assert!(msg.contains("27.3.1"));
    assert_eq!(msg, "Docker 27.3.1 (API 1.47)");
    assert_eq!(dockshell::docker::engine_version_text(None, None), "Docker  (API )");
}

#[test]
fn port_plan_keeps_order_and_repeats() {
    let ports = vec![
        PortMapping { host: "8080".into(), container: "80".into() },
        PortMapping { host: "8443".into(), container: "443".into() },
        PortMapping { host: "9090".into(), container: "80".into() },
    ];
    assert_eq!(
        port_binding_plan(&ports),
        vec![
            ("80/tcp".to_string(), "8080".to_string()),
            ("443/tcp".to_string(), "8443".to_string()),
            ("80/tcp".to_string(), "9090".to_string()),
        ]
    );
    assert!(port_binding_plan(&vec![]).is_empty());
}
