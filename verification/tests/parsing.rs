use zap::{parse_parameter, ParamMap, Plan, Task};

// ----- parser behavior -----

#[test]
fn task_parse_simple_script_task() {
    let buf = r#"task Install {
                parameters {
                    package {
                        required = true
                        help = 'Name of package to be installed'
                        type = string
                    }
                }
                script {
                    inline = 'zypper in -y {{package}}'
                }
            }"#;
    let _task = Task::from_str(buf).unwrap();
}

#[test]
fn task_parse_no_parameters() {
    let buf = r#"task PrintEnv {
                script {
                    inline = 'env'
                }
            }"#;
    let _task = Task::from_str(buf).unwrap();
}

#[test]
fn lib_parse_simple_script_task() {
    let buf = r#"task Install {
                parameters {
                    package {
                        required = true
                        help = "Name of package to be installed"
                        type = string
                    }
                }
                script {
                    inline = "zypper in -y ${ZAP_PACKAGE}"
                }
            }"#;
    let _task = Task::from_str(buf).unwrap();
}

#[test]
fn lib_parse_no_parameters() {
    let buf = r#"task PrintEnv {
                script {
                    inline = "env"
                }
            }"#;
    let _task = Task::from_str(buf).unwrap();
}

#[test]
fn parse_task_fn() {
    let buf = r#"task PrintEnv {
                script {
                    inline = 'env'
                }
            }"#;
    let task = Task::from_str(buf).expect("Failed to parse the task");
    assert_eq!(task.name, "PrintEnv");

    let script = task.script;

    assert_eq!(script.as_bytes(None, None).unwrap(), "env".as_bytes());
}

#[test]
fn parse_task_fn_with_triple_quotes() {
    let buf = r#"task PrintEnv {
                script {
                    inline = '''env'''
                }
            }"#;
    let task = Task::from_str(buf).expect("Failed to parse the task");
    assert_eq!(task.name, "PrintEnv");

    let script = task.script;
    assert_eq!(script.as_bytes(None, None).unwrap(), "env".as_bytes());
}

#[test]
fn parse_simple_plan() {
    let buf = r#"/*
 * This zplan just loads a couple tasks and then executes them
 *
 * It is expected to be run from the root of the project tree.
 */

task '../tasks/echo.ztask' {
    msg = 'Hello from the wonderful world of zplans!'
}

task '../tasks/echo.ztask' {
    msg = 'This can actually take inline shells too: $(date)'
}"#;
    let _plan = Plan::from_str(buf).unwrap();
}

#[test]
fn parse_plan_fn() {
    let buf = r#"task '../tasks/echo.ztask' {
                        msg = 'Hello from the wonderful world of zplans!'
                    }

                    task '../tasks/echo.ztask' {
                        msg = 'This can actually take inline shells too: $(date)'
                    }"#;
    let plan = Plan::from_str(buf).expect("Failed to parse the plan");
    assert_eq!(plan.tasks.len(), 2);
}

// ----- quoting invariance -----

#[test]
fn quoting_invariant_task_scripts() {
    let single = "task T { script { inline = 'env' } }";
    let double = "task T { script { inline = \"env\" } }";
    let triple = "task T { script { inline = '''env''' } }";
    let t1 = Task::from_str(single).unwrap();
    let t2 = Task::from_str(double).unwrap();
    let t3 = Task::from_str(triple).unwrap();
    assert_eq!(t1.script.inline.as_deref(), Some("env"));
    assert_eq!(t2.script.inline.as_deref(), Some("env"));
    assert_eq!(t3.script.inline.as_deref(), Some("env"));
    assert!(t1.script.file.is_none());
    assert!(t2.script.file.is_none());
    assert!(t3.script.file.is_none());
}

#[test]
fn triple_quotes_keep_metacharacters() {
    let buf = "task T { script { inline = '''echo \"it's here\" > /tmp/x''' } }";
    let task = Task::from_str(buf).unwrap();
    assert_eq!(task.script.inline.as_deref(), Some("echo \"it's here\" > /tmp/x"));
}

// ----- task grammar details -----

#[test]
fn task_without_script_block_parses() {
    let task = Task::from_str("task Empty { }").unwrap();
    assert_eq!(task.name, "Empty");
    assert!(task.script.inline.is_none());
    assert!(task.script.file.is_none());
    // No body to materialize: an error to the caller, not a panic.
    assert!(task.script.as_bytes(None, None).is_none());
}

#[test]
fn task_with_file_script() {
    let task = Task::from_str("task Put { script { file = './deploy.sh' } }").unwrap();
    assert_eq!(task.script.file.as_deref(), Some("./deploy.sh"));
    assert!(task.script.has_file());
}

#[test]
fn task_parse_errors() {
    assert!(Task::from_str("").is_err());
    assert!(Task::from_str("task").is_err());
    assert!(Task::from_str("task Name").is_err());
    assert!(Task::from_str("task Name { script { inline = 'x' }").is_err());
    assert!(Task::from_str("task Name { script { inline = 'x } }").is_err());
    assert!(Task::from_str("task Name { script { banana = 'x' } }").is_err());
    assert!(Task::from_str("task Name { } trailing").is_err());
    let err = Task::from_str("nothing here").unwrap_err();
    assert!(!err.message.is_empty());
}

// ----- serialization round trip -----

#[test]
fn task_source_round_trip() {
    let buf = "task Deploy { script { inline = 'echo {{msg}}' file = './x.sh' } }";
    let task = Task::from_str(buf).unwrap();
    let source = task.to_source();
    let again = Task::from_str(&source).unwrap();
    assert_eq!(again.name, task.name);
    assert_eq!(again.script.inline, task.script.inline);
    assert_eq!(again.script.file, task.script.file);
}

#[test]
fn empty_task_source_round_trip() {
    let task = Task::new("Bare");
    let source = task.to_source();
    assert_eq!(source, "task Bare{}");
    let again = Task::from_str(&source).unwrap();
    assert_eq!(again.name, "Bare");
    assert!(again.script.inline.is_none());
    assert!(again.script.file.is_none());
}

// ----- plan grammar details -----

#[test]
fn plan_kwargs_with_commas_and_without() {
    let with = Plan::from_str("task 'a.ztask' { x = '1', y = '2' }").unwrap();
    let without = Plan::from_str("task 'a.ztask' { x = '1' y = '2' }").unwrap();
    let trailing = Plan::from_str("task 'a.ztask' { x = '1', y = '2', }").unwrap();
    for plan in [&with, &without, &trailing] {
        assert_eq!(plan.tasks.len(), 1);
        let params = &plan.tasks[0].parameters;
        assert_eq!(params.get("x").map(String::as_str), Some("1"));
        assert_eq!(params.get("y").map(String::as_str), Some("2"));
    }
    assert_eq!(with.tasks[0].path, "a.ztask");
}

#[test]
fn plan_empty_source_is_empty_plan() {
    let plan = Plan::from_str("").unwrap();
    assert_eq!(plan.tasks.len(), 0);
    let commented = Plan::from_str("/* nothing to do */").unwrap();
    assert_eq!(commented.tasks.len(), 0);
    // An unterminated comment swallows the rest of the input.
    let open_comment = Plan::from_str("/* unterminated").unwrap();
    assert_eq!(open_comment.tasks.len(), 0);
}

#[test]
fn plan_parse_errors() {
    assert!(Plan::from_str("task { }").is_err());
    assert!(Plan::from_str("task 'a.ztask' x = '1'").is_err());
    assert!(Plan::from_str("task 'a.ztask' { x = 1 }").is_err());
    assert!(Plan::from_str("plan 'a.ztask' { }").is_err());
}

#[test]
fn plan_resolve_keeps_order_and_skips_failures() {
    let buf = "task 'first.ztask' { msg = 'one' } task 'second.ztask' { msg = 'two' }";
    let plan = Plan::from_str(buf).unwrap();
    assert_eq!(plan.tasks.len(), 2);

    // Both referenced files readable and valid: both run, in order.
    let sources = vec![
        Some("task First { script { inline = 'echo 1' } }".to_string()),
        Some("task Second { script { inline = 'echo 2' } }".to_string()),
    ];
    let tasks = plan.resolve(&sources);
    assert_eq!(tasks.len(), 2);
    assert_eq!(tasks[0].task.name, "First");
    assert_eq!(tasks[1].task.name, "Second");
    assert_eq!(tasks[0].parameters.get("msg").map(String::as_str), Some("one"));
    assert_eq!(tasks[1].parameters.get("msg").map(String::as_str), Some("two"));

    // A parse failure on the second file still lets the first run.
    let sources = vec![
        Some("task First { script { inline = 'echo 1' } }".to_string()),
        Some("this is not a task".to_string()),
    ];
    let tasks = plan.resolve(&sources);
    assert_eq!(tasks.len(), 1);
    assert_eq!(tasks[0].task.name, "First");

    // An unreadable first file still lets the second run.
    let sources = vec![None, Some("task Second { script { inline = 'echo 2' } }".to_string())];
    let tasks = plan.resolve(&sources);
    assert_eq!(tasks.len(), 1);
    assert_eq!(tasks[0].task.name, "Second");
}

// ----- parameter maps and the key=value splitter -----

#[test]
fn param_map_insert_get_replace() {
    let mut params = ParamMap::new();
    assert!(params.get("msg").is_none());
    params.insert("msg".to_string(), "hello".to_string());
    assert_eq!(params.get("msg").map(String::as_str), Some("hello"));
    assert!(params.contains_key("msg"));
    params.insert("msg".to_string(), "replaced".to_string());
    assert_eq!(params.get("msg").map(String::as_str), Some("replaced"));
    assert_eq!(params.entries().len(), 1);
}

#[test]
fn parse_parameter_splits_once() {
    assert_eq!(
        parse_parameter("msg=hello"),
        Some(("msg".to_string(), "hello".to_string()))
    );
    assert_eq!(parse_parameter("a="), Some(("a".to_string(), "".to_string())));
    assert_eq!(parse_parameter("=v"), Some(("".to_string(), "v".to_string())));
    assert_eq!(parse_parameter("a=b=c"), None);
    assert_eq!(parse_parameter("noequals"), None);
}
