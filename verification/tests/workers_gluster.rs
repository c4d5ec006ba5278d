use mde::workers::gluster::{bootstrap_argv, min_brick_free_bytes, quota_set_argv};

#[test]
fn bootstrap_argv_matches_design_doc_command_shape() {
    let argv = bootstrap_argv("gluster", "10.42.0.5", "/var/lib/gluster/bricks/mesh-home");
    assert_eq!(
        argv,
        vec![
            "gluster",
            "volume",
            "create",
            "mesh-home",
            "replica",
            "1",
            "transport",
            "tcp",
            "10.42.0.5:/var/lib/gluster/bricks/mesh-home",
            "force",
        ]
    );
}

#[test]
fn bootstrap_argv_honors_alternate_binary_and_paths() {
    let argv = bootstrap_argv("/usr/local/bin/gluster", "192.168.42.7", "/srv/gluster/mesh-home");
    assert_eq!(argv[0], "/usr/local/bin/gluster");
    assert_eq!(argv[argv.len() - 2], "192.168.42.7:/srv/gluster/mesh-home");
}

#[test]
fn min_brick_free_bytes_picks_smallest_brick() {
    let xml = r#"
        <cliOutput>
          <volume>
            <bricks>
              <brick><name>peer-a:/brick</name><sizeFree>1000000000</sizeFree></brick>
              <brick><name>peer-b:/brick</name><sizeFree>500000000</sizeFree></brick>
              <brick><name>peer-c:/brick</name><sizeFree>2000000000</sizeFree></brick>
            </bricks>
          </volume>
        </cliOutput>
    "#;
    assert_eq!(min_brick_free_bytes(xml), Some(500_000_000));
}

#[test]
fn min_brick_free_bytes_returns_none_for_empty_volume() {
    let xml = "<cliOutput><volume><bricks/></volume></cliOutput>";
    assert_eq!(min_brick_free_bytes(xml), None);
}

#[test]
fn min_brick_free_bytes_skips_unparseable_entries() {
    let xml = r#"
        <cliOutput><volume><bricks>
          <brick><sizeFree>not-a-number</sizeFree></brick>
          <brick><sizeFree>42</sizeFree></brick>
        </bricks></volume></cliOutput>
    "#;
    assert_eq!(min_brick_free_bytes(xml), Some(42));
}

#[test]
fn min_brick_free_bytes_unclosed_element_is_none() {
    assert_eq!(min_brick_free_bytes("<sizeFree>5</sizeFree><sizeFree>7"), None);
    assert_eq!(min_brick_free_bytes("<sizeFree> 9 </sizeFree>"), Some(9));
}

#[test]
fn quota_set_argv_matches_design_doc_command_shape() {
    let argv = quota_set_argv("gluster", 800_000_000_000);
    assert_eq!(argv, vec!["gluster", "volume", "quota", "mesh-home", "limit-usage", "/", "800000000000"]);
}
