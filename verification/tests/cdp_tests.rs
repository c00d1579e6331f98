use bot_trap::cdp::{get_cdp_detection_script, get_cdp_report_script, inject_cdp_detection};

#[test]
fn test_get_cdp_detection_script_returns_javascript() {
    let script = get_cdp_detection_script();
    assert!(!script.is_empty(), "CDP detection script should not be empty");
    assert!(script.contains("_checkCDPAutomation"), "Script should define _checkCDPAutomation function");
    assert!(script.contains("detectCDP"), "Script should contain detectCDP function");
    assert!(script.contains("checkWebDriver"), "Script should contain webdriver check");
    assert!(script.contains("checkAutomationProperties"), "Script should contain automation properties check");
}

#[test]
fn test_get_cdp_report_script_with_endpoint() {
    let endpoint = "/cdp-report";
    let script = get_cdp_report_script(endpoint);
    assert!(script.contains(endpoint), "Script should contain the report endpoint");
    assert!(script.contains("fetch"), "Script should contain fetch call");
    assert!(script.contains("POST"), "Script should use POST method");
    assert!(script.contains("cdp_detected"), "Script should send cdp_detected field");
}

#[test]
fn test_inject_cdp_detection_into_head() {
    let html = r#"<!DOCTYPE html>
<html>
<head>
    <title>Test</title>
</head>
<body>
    <p>Content</p>
</body>
</html>"#;

    let result = inject_cdp_detection(html, None);
    assert!(result.contains("_checkCDPAutomation"), "Injection should add detection script");
    assert!(result.contains("</head>"), "Should preserve </head> tag");
    let head_end_pos = result.find("</head>").unwrap();
    let script_pos = result.find("_checkCDPAutomation").unwrap();
    assert!(script_pos < head_end_pos, "Script should be injected before </head>");
}

#[test]
fn test_inject_cdp_detection_into_body_fallback() {
    let html = r#"<!DOCTYPE html>
<html>
<body>
    <p>Content</p>
</body>
</html>"#;

    let result = inject_cdp_detection(html, None);
    assert!(result.contains("_checkCDPAutomation"), "Injection should add detection script");
    assert!(result.contains("</body>"), "Should preserve </body> tag");
}

#[test]
fn test_inject_cdp_detection_with_report_endpoint() {
    let html = r#"<html><head></head><body></body></html>"#;
    let endpoint = "/api/cdp-report";
    let result = inject_cdp_detection(html, Some(endpoint));
    assert!(result.contains("_checkCDPAutomation"), "Should include detection script");
    assert!(result.contains(endpoint), "Should include report endpoint");
    assert!(result.contains("fetch"), "Should include fetch for reporting");
}

#[test]
fn test_inject_cdp_detection_minimal_html() {
    let html = "<p>Just some text</p>";
    let result = inject_cdp_detection(html, None);
    assert!(result.contains("_checkCDPAutomation"), "Should inject script even for minimal HTML");
    assert!(result.contains("<p>Just some text</p>"), "Original content should be preserved");
}

#[test]
fn report_script_wraps_the_endpoint() {
    let script = get_cdp_report_script("/r");
    assert!(script.starts_with("\n<script>\n(function() {\n"));
    assert!(script.contains("fetch('/r', {\n                method: 'POST',"));
    assert!(script.ends_with("})();\n</script>\n"));
}

#[test]
fn injection_is_exact() {
    let js = get_cdp_detection_script();
    let payload = format!("<script>{}</script>", js);
    assert_eq!(
        inject_cdp_detection("<head></head><body></body>", None),
        format!("<head>{}</head><body></body>", payload)
    );
    assert_eq!(inject_cdp_detection("a</body>b</body>", None), format!("a{}</body>b{}</body>", payload, payload));
    assert_eq!(inject_cdp_detection("plain", None), format!("plain{}", payload));
    let with_report = format!("{}{}", payload, get_cdp_report_script("/e"));
    assert_eq!(inject_cdp_detection("x</head>", Some("/e")), format!("x{}</head>", with_report));
}
