use kivori::scenario::{is_supported_step, step_keys, SUPPORTED_STEPS};

#[test]
fn the_unsupported_step_detector_is_not_vacuous() {
    // Negative control: the three step kinds that look plausible but are rejected at run time.
    let bogus = "\
name: bogus
version: 1
author: t
steps:
  - wait-pin: { part: esp, pin: '4', value: high }
  - screenshot: {}
  - wait-text: hello
";
    let keys = step_keys(bogus);
    assert_eq!(keys, vec!["wait-pin", "screenshot", "wait-text"]);
    assert!(
        keys.iter().all(|k| !SUPPORTED_STEPS.contains(&k.as_str())),
        "the detector must reject every unsupported step kind"
    );
}

#[test]
fn supported_step_keys_are_recognised() {
    let yaml = "steps:\n  - wait-serial: 'x'\n  - write-serial: [1, 2]\n  - delay: 10ms\n  - set-control: {}\n  - expect-pin: {}\n";
    let keys = step_keys(yaml);
    assert_eq!(
        keys,
        vec!["wait-serial", "write-serial", "delay", "set-control", "expect-pin"]
    );
    assert!(keys.iter().all(|k| is_supported_step(k)));
    assert!(!is_supported_step("wait-pin"));
}

#[test]
fn step_keys_ignore_lines_that_are_not_steps() {
    let yaml = "name: x\n# - commented: no\n-nospace: no\n  -   : empty\n\t- tabbed : yes\r\n  - last:";
    assert_eq!(step_keys(yaml), vec!["tabbed", "last"]);
}

#[test]
fn a_key_without_a_colon_is_the_whole_remainder() {
    assert_eq!(step_keys("  - lonely  \n"), vec!["lonely"]);
    assert!(step_keys("").is_empty());
}
