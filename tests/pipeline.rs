use mirakc::config::default_program_filter;
use mirakc::pipeline::{
    arrange_stages, plan_stream, raw_stream_content_type, render_template, split_command,
    FilterStage,
};

fn stage(command: &str, content_type: Option<&str>) -> FilterStage {
    FilterStage {
        command: command.to_string(),
        content_type: content_type.map(|t| t.to_string()),
    }
}

fn commands_of(stages: &[FilterStage]) -> Vec<String> {
    stages.iter().map(|s| s.command.clone()).collect()
}

#[test]
fn test_stage_order_with_decoder() {
    let stages = arrange_stages(
        stage("service", None),
        vec![stage("pre1", None), stage("pre2", None)],
        Some(stage("decoder", None)),
        true,
        vec![stage("post1", None)],
    );
    assert_eq!(commands_of(&stages), vec!["service", "pre1", "pre2", "decoder", "post1"]);
}

#[test]
fn test_stage_order_without_decode() {
    let stages = arrange_stages(
        stage("service", None),
        vec![stage("pre", None)],
        Some(stage("decoder", None)),
        false,
        vec![stage("post", None)],
    );
    assert_eq!(commands_of(&stages), vec!["service", "pre", "post"]);

    let stages = arrange_stages(stage("service", None), vec![], None, true, vec![]);
    assert_eq!(commands_of(&stages), vec!["service"]);
}

#[test]
fn test_plan_skips_identity_stages() {
    let stages = vec![
        stage("", None),
        stage("cat", None),
        stage("", Some("video/mp4")),
        stage("tee x", None),
    ];
    let plan = plan_stream(&stages);
    assert_eq!(plan.commands, vec!["cat".to_string(), "tee x".to_string()]);
    assert_eq!(plan.content_type, "video/MP2T");
    assert!(!plan.accepts_byte_ranges);
}

#[test]
fn test_plan_content_type_of_last_declaring_stage() {
    let stages = vec![
        stage("cat", Some("video/mp4")),
        stage("cat", None),
        stage("cat", Some("video/webm")),
        stage("cat", None),
    ];
    let plan = plan_stream(&stages);
    assert_eq!(plan.content_type, "video/webm");
    assert_eq!(plan.commands.len(), 4);

    let stages = arrange_stages(
        stage("", None),
        vec![],
        None,
        true,
        vec![stage("cat", Some("video/mp4"))],
    );
    let plan = plan_stream(&stages);
    assert_eq!(plan.content_type, "video/mp4");
    assert_eq!(plan.commands, vec!["cat".to_string()]);
}

#[test]
fn test_plan_of_identity_only() {
    let plan = plan_stream(&vec![stage("", None)]);
    assert!(plan.commands.is_empty());
    assert_eq!(plan.content_type, raw_stream_content_type());
    assert_eq!(raw_stream_content_type(), "video/MP2T");
}

#[test]
fn test_split_command() {
    assert_eq!(
        split_command("mirakc-arib filter-service --sid=1"),
        vec!["mirakc-arib", "filter-service", "--sid=1"]
    );
    assert_eq!(split_command("  cat\t -  "), vec!["cat", "-"]);
    assert!(split_command("").is_empty());
    assert!(split_command(" \t ").is_empty());
    assert_eq!(split_command("a"), vec!["a"]);
}

fn bindings(pairs: &[(&str, &str)]) -> Vec<(String, String)> {
    pairs.iter().map(|(k, v)| (k.to_string(), v.to_string())).collect()
}

#[test]
fn test_render_template() {
    let b = bindings(&[("sid", "1024"), ("eid", "7"), ("sid", "9")]);
    assert_eq!(
        render_template("mirakc-arib filter-service --sid={{sid}}", &b),
        "mirakc-arib filter-service --sid=1024"
    );
    assert_eq!(render_template("{{sid}}-{{eid}}", &b), "1024-7");
    assert_eq!(render_template("{{unknown}} {{}} {{sid", &b), "{{unknown}} {{}} {{sid");
    assert_eq!(render_template("{{ sid }}", &b), "{{ sid }}");
    assert_eq!(render_template("{{{sid}}}", &b), "{1024}");
    assert_eq!(render_template("", &b), "");
    assert_eq!(render_template("no placeholders", &vec![]), "no placeholders");
}

#[test]
fn test_render_default_program_filter() {
    let b = bindings(&[
        ("sid", "1"),
        ("eid", "2"),
        ("clock_pcr", "3"),
        ("clock_time", "4"),
    ]);
    assert_eq!(
        render_template(&default_program_filter(), &b),
        "mirakc-arib filter-program --sid=1 --eid=2 --clock-pcr=3 --clock-time=4 \
         --start-margin=5000 --end-margin=5000 --pre-streaming"
    );
}
