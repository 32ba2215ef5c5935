use audit::cpe::{AttributeValue, CpePart, CpeWfn};

fn text(s: &str) -> AttributeValue {
    AttributeValue::from_text(String::from(s))
}

#[test]
fn bind_to_uri_2_2_test_example1() {
    // wfn:[part="a",vendor="microsoft",product="internet_explorer",
    // version="8\.0\.6001",update="beta",edition=ANY]
    let mut cpe = CpeWfn::new(
        CpePart::Application,
        String::from("microsoft"),
        String::from("internet_explorer"),
        String::from("8\\.0\\.6001"),
    );
    cpe.update = text("beta");
    cpe.edition = text("ANY");

    assert_eq!("cpe:/a:microsoft:internet_explorer:8.0.6001:beta", cpe.bind_to_uri_2_2());
}

#[test]
fn bind_to_uri_2_2_test_example2() {
    // wfn:[part="a",vendor="microsoft",product="internet_explorer",
    // version="8\.*",update="sp?"]
    let mut cpe = CpeWfn::new(
        CpePart::Application,
        String::from("microsoft"),
        String::from("internet_explorer"),
        String::from("8\\.*"),
    );
    cpe.update = text("sp?");

    assert_eq!("cpe:/a:microsoft:internet_explorer:8.%02:sp%01", cpe.bind_to_uri_2_2());
}

#[test]
fn bind_to_uri_2_2_test_example3() {
    // wfn:[part="a",vendor="hp",product="insight_diagnostics",
    // version="7\.4\.0\.1570",update=NA,
    // sw_edition="online",target_sw="win2003",target_hw="x64"]
    let mut cpe = CpeWfn::new(
        CpePart::Application,
        String::from("hp"),
        String::from("insight_diagnostics"),
        String::from("7\\.4\\.0\\.1570"),
    );
    cpe.update = text("NA");
    cpe.sw_edition = text("online");
    cpe.target_sw = text("win2003");
    cpe.target_hw = text("x64");

    assert_eq!(
        "cpe:/a:hp:insight_diagnostics:7.4.0.1570:-:~~online~win2003~x64~",
        cpe.bind_to_uri_2_2()
    );
}

#[test]
fn bind_to_uri_2_2_test_example4() {
    // wfn:[part="a",vendor="hp",product="openview_network_manager",
    // version="7\.51",target_sw="linux"]
    let mut cpe = CpeWfn::new(
        CpePart::Application,
        String::from("hp"),
        String::from("openview_network_manager"),
        String::from("7\\.51"),
    );
    cpe.target_sw = text("linux");

    assert_eq!("cpe:/a:hp:openview_network_manager:7.51::~~~linux~~", cpe.bind_to_uri_2_2());
}

#[test]
fn bind_to_uri_2_2_test_example5() {
    // wfn:[part="a",vendor="foo\\bar",product="big\$money_manager_2010",
    // sw_edition="special",target_sw="ipod_touch",target_hw="80gb"]
    let mut cpe = CpeWfn::new(
        CpePart::Application,
        String::from("foo\\\\bar"),
        String::from("big\\$money_manager_2010"),
        String::new(),
    );
    cpe.sw_edition = text("special");
    cpe.target_sw = text("ipod_touch");
    cpe.target_hw = text("80gb");

    assert_eq!(
        "cpe:/a:foo%5cbar:big%24money_manager_2010:::~~special~ipod_touch~80gb~",
        cpe.bind_to_uri_2_2()
    );
}

#[test]
fn bind_to_fs_2_3_test_example1() {
    // wfn:[part="a",vendor="microsoft",product="internet_explorer",
    // version="8\.0\.6001",update="beta",edition=ANY]
    let mut cpe = CpeWfn::new(
        CpePart::Application,
        String::from("microsoft"),
        String::from("internet_explorer"),
        String::from("8\\.0\\.6001"),
    );
    cpe.update = text("beta");
    cpe.edition = text("ANY");

    assert_eq!(
        "cpe:2.3:a:microsoft:internet_explorer:8.0.6001:beta:*:*:*:*:*:*",
        cpe.bind_to_fs_2_3()
    );
}

#[test]
fn bind_to_fs_2_3_test_example2() {
    // wfn:[part="a",vendor="microsoft",product="internet_explorer",
    // version="8\.*",update="sp?",edition=ANY]
    let mut cpe = CpeWfn::new(
        CpePart::Application,
        String::from("microsoft"),
        String::from("internet_explorer"),
        String::from("8\\.*"),
    );
    cpe.update = text("sp?");

    assert_eq!("cpe:2.3:a:microsoft:internet_explorer:8.*:sp?:*:*:*:*:*:*", cpe.bind_to_fs_2_3());
}

#[test]
fn bind_to_fs_2_3_test_example3() {
    // wfn:[part="a",vendor="hp",product="insight",
    // version="7\.4\.0\.1570",update=NA,
    // sw_edition="online",target_sw="win2003",target_hw="x64"]
    let mut cpe = CpeWfn::new(
        CpePart::Application,
        String::from("hp"),
        String::from("insight"),
        String::from("7\\.4\\.0\\.1570"),
    );
    cpe.update = text("NA");
    cpe.sw_edition = text("online");
    cpe.target_sw = text("win2003");
    cpe.target_hw = text("x64");

    assert_eq!("cpe:2.3:a:hp:insight:7.4.0.1570:-:*:*:online:win2003:x64:*", cpe.bind_to_fs_2_3());
}

#[test]
fn bind_to_fs_2_3_test_example4() {
    // wfn:[part="a",vendor="hp",product="insight",
    // version="7\.4\.0\.1570",update=NA,
    // sw_edition="online",target_sw="win2003",target_hw="x64"]
    let mut cpe = CpeWfn::new(
        CpePart::Application,
        String::from("hp"),
        String::from("insight"),
        String::from("7\\.4\\.0\\.1570"),
    );
    cpe.update = text("NA");
    cpe.sw_edition = text("online");
    cpe.target_sw = text("win2003");
    cpe.target_hw = text("x64");

    assert_eq!("cpe:2.3:a:hp:insight:7.4.0.1570:-:*:*:online:win2003:x64:*", cpe.bind_to_fs_2_3());
}

#[test]
fn bind_to_fs_2_3_test_example5() {
    // wfn:[part="a",vendor="foo\\bar",product="big\$money_2010",
    // sw_edition="special",target_sw="ipod_touch",target_hw="80gb"]
    let mut cpe = CpeWfn::new(
        CpePart::Application,
        String::from("foo\\\\bar"),
        String::from("big\\$money_2010"),
        String::new(),
    );
    cpe.sw_edition = text("special");
    cpe.target_sw = text("ipod_touch");
    cpe.target_hw = text("80gb");

    assert_eq!(
        r#"cpe:2.3:a:foo\\bar:big\$money_2010:*:*:*:*:special:ipod_touch:80gb:*"#,
        cpe.bind_to_fs_2_3()
    );
}
