use kivori::scenario::{
    catalogue, frame_requests, generated_scenarios, state_cycle_serial, vector, vectors,
    yaml_bytes, RequestedMessage, Vector, WireVersion, BOOT_ONLY_MARKERS, HELLO_NONCE, PING_T_MS,
};

/// Stand-in encodings: one distinct, delimiter-terminated frame per request, so the catalogue's
/// own logic (names, order, corruption, formatting) can be checked without the codec.
fn encoded() -> Vec<Vec<u8>> {
    frame_requests()
        .iter()
        .enumerate()
        .map(|(i, r)| {
            let seq = r.seq.to_le_bytes();
            vec![0x10 + i as u8, seq[0], seq[1], 0xC0, 0x00]
        })
        .collect()
}

fn all() -> Vec<Vector> {
    vectors(&encoded())
}

#[test]
fn generation_is_deterministic() {
    let a = all();
    let b = all();
    assert_eq!(a, b, "vectors must be byte-identical across runs");
    let flat_a: Vec<u8> = a.iter().flat_map(|v| v.bytes.clone()).collect();
    let flat_b: Vec<u8> = b.iter().flat_map(|v| v.bytes.clone()).collect();
    assert_eq!(flat_a, flat_b);
}

#[test]
fn vector_names_are_unique_and_non_empty() {
    let all = all();
    assert!(!all.is_empty());
    let mut names: Vec<&str> = all.iter().map(|v| v.name).collect();
    names.sort_unstable();
    let count = names.len();
    names.dedup();
    assert_eq!(names.len(), count, "vector names must be unique");
    assert!(all.iter().all(|v| !v.bytes.is_empty()), "no empty vector");
}

#[test]
fn the_requests_fix_nonce_timestamp_versions_and_sequence_numbers() {
    let r = frame_requests();
    assert_eq!(r.len(), 12);
    assert_eq!(
        r[0].message,
        RequestedMessage::Hello { nonce: HELLO_NONCE, caps_bits: 0 }
    );
    assert_eq!(r[1].version, WireVersion::CompatibleMinor);
    assert_eq!(r[2].version, WireVersion::IncompatibleMajor);
    assert_eq!(
        r[3].message,
        RequestedMessage::Hello { nonce: HELLO_NONCE, caps_bits: 0xFFFF_FFFF }
    );
    assert_eq!(r[4].message, RequestedMessage::Ping { t_ms: PING_T_MS });
    assert_eq!(r[4].seq, 1);
    assert_eq!(r[7].seq, 1, "duplicate reuses the seq");
    assert_eq!(r[8].seq, 900);
    assert_eq!(r[9].seq, u16::MAX);
    assert_eq!(r[10].seq, 0);
    assert_eq!(r[11].seq, 4);
}

#[test]
fn the_crc_vector_flips_only_the_last_byte_before_the_delimiter() {
    let enc = encoded();
    let crc = vector(&all(), "ping_crc_invalid");
    let mut expected = enc[11].clone();
    let pos = expected.len() - 2;
    expected[pos] ^= 0xFF;
    assert_eq!(crc.bytes, expected);
    assert_ne!(crc.bytes, enc[11]);
}

#[test]
fn the_malformed_vectors_are_fixed_bytes() {
    let all = all();
    assert_eq!(vector(&all, "malformed_cobs").bytes, vec![0x05, 0xFF, 0x01, 0x00]);
    assert_eq!(vector(&all, "truncated_frame").bytes, vec![0x03, 0x56, 0x4B, 0x00]);
    assert_eq!(vector(&all, "ping").bytes, encoded()[4]);
}

#[test]
fn yaml_byte_formatting_is_a_valid_inline_sequence() {
    assert_eq!(yaml_bytes(&[0, 1, 255]), "[0, 1, 255]");
    let v = vector(&all(), "ping");
    let rendered = yaml_bytes(&v.bytes);
    assert!(rendered.starts_with('[') && rendered.ends_with(']'));
    let inner = rendered.trim_start_matches('[').trim_end_matches(']');
    for item in inner.split(", ") {
        let n: u16 = item.parse().expect("decimal octet");
        assert!(n <= 255);
    }
    assert_eq!(yaml_bytes(&[]), "[]");
    assert_eq!(yaml_bytes(&[7]), "[7]");
}

/// Splits a scenario into its ordered `(kind, payload)` steps, where kind is `wait` or `write`.
fn steps(yaml: &str) -> Vec<(&'static str, String)> {
    yaml.lines()
        .filter_map(|line| {
            let t = line.trim();
            t.strip_prefix("- wait-serial: ")
                .map(|rest| ("wait", rest.trim_matches('\'').to_string()))
                .or_else(|| {
                    t.strip_prefix("- write-serial: ")
                        .map(|_| ("write", String::new()))
                })
        })
        .collect()
}

#[test]
fn boot_only_markers_are_not_awaited_late() {
    for (name, yaml) in generated_scenarios(&all()) {
        let mut injected = false;
        for (kind, payload) in steps(&yaml) {
            if kind == "write" {
                injected = true;
                continue;
            }
            if injected {
                for boot_marker in BOOT_ONLY_MARKERS {
                    assert!(
                        !payload.contains(boot_marker),
                        "scenario `{name}` waits on boot-only marker `{boot_marker}` after injection \
                         has started. Offending step: `{payload}`"
                    );
                }
            }
        }
    }
}

#[test]
fn multi_step_scenarios_end_on_an_explicit_completion_marker() {
    for (name, yaml) in generated_scenarios(&all()) {
        let all = steps(&yaml);
        let injections = all.iter().filter(|(k, _)| *k == "write").count();
        if injections < 2 {
            continue;
        }
        let last_wait = all
            .iter()
            .rev()
            .find(|(k, _)| *k == "wait")
            .map(|(_, p)| p.clone())
            .unwrap_or_default();
        assert!(
            last_wait.contains("ALL PASS") || last_wait.contains("SEQ seq="),
            "scenario `{name}` must end on an explicit verified-outcome marker, got `{last_wait}`"
        );
    }
}

#[test]
fn every_scenario_starts_by_awaiting_readiness() {
    for (name, yaml) in generated_scenarios(&all()) {
        let first = steps(&yaml).into_iter().next().expect("at least one step");
        assert_eq!(first.0, "wait", "scenario `{name}` must wait before injecting");
        assert!(
            first.1.contains("READY"),
            "scenario `{name}` must wait for the readiness marker first, got `{}`",
            first.1
        );
    }
}

#[test]
fn state_cycle_scenario_covers_every_required_post_condition() {
    let yaml = state_cycle_serial(&all());
    for required in [
        "KIVORI-EXT RX kind=Hello",
        "KIVORI-EXT TX kind=HelloAck nonce=ok",
        "KIVORI-EXT RX kind=SetState",
        "KIVORI-EXT TX kind=StateReport reported=idle",
        "KIVORI-EXT STATE current=idle",
        "KIVORI-EXT TX kind=StateReport reported=happy",
        "KIVORI-EXT STATE current=happy",
        "KIVORI-EXT DROP reason=decode",
        "KIVORI-EXT TX kind=Pong",
        "KIVORI-EXT ALL PASS state-cycle",
    ] {
        assert!(yaml.contains(required), "state-cycle-serial must assert `{required}`");
    }
    let last = steps(&yaml)
        .into_iter()
        .rfind(|(k, _)| *k == "wait")
        .map(|(_, p)| p)
        .unwrap_or_default();
    assert_eq!(last, "KIVORI-EXT ALL PASS state-cycle");
}

#[test]
fn the_late_boot_marker_detector_is_not_vacuous() {
    let buggy = "\
name: buggy
version: 1
author: t
steps:
  - wait-serial: 'KIVORI-EXT READY iface=usb-serial-jtag'
  - write-serial: [1, 2, 3]
  - wait-serial: 'KIVORI-EXT TX kind=StateReport reported=happy'
  - wait-serial: 'KIVORI-EXT SENDABLE-GUARD ok'
";
    let mut injected = false;
    let mut caught = false;
    for (kind, payload) in steps(buggy) {
        if kind == "write" {
            injected = true;
            continue;
        }
        if injected && BOOT_ONLY_MARKERS.iter().any(|m| payload.contains(m)) {
            caught = true;
        }
    }
    assert!(caught, "the detector must reject a boot-only marker awaited after injection");
}

#[test]
fn every_scenario_declares_the_required_top_level_keys() {
    for (name, yaml) in generated_scenarios(&all()) {
        for key in ["name:", "version:", "author:", "steps:"] {
            assert!(
                yaml.lines().any(|l| l.starts_with(key)),
                "{name} is missing the top-level `{key}`"
            );
        }
        assert!(yaml.lines().any(|l| l.trim() == "version: 1"));
        for line in yaml.lines().filter(|l| l.starts_with('#')) {
            assert!(line.starts_with('#'), "every description line is a comment");
        }
    }
}

#[test]
fn the_production_runtime_scenario_waits_in_emission_order() {
    let (_, yaml) = generated_scenarios(&all()).into_iter().nth(3).unwrap();
    let stages: Vec<String> = steps(&yaml)
        .into_iter()
        .filter(|(k, _)| *k == "wait")
        .filter_map(|(_, p)| p.strip_prefix("KIVORI-RUN PASS ").map(str::to_string))
        .collect();
    assert_eq!(
        stages,
        vec![
            "lifecycle-booting-to-offline",
            "first-frame-six-tiles",
            "health-report",
            "unchanged-frame-no-reflush",
            "hello-ack",
            "state-idle",
            "state-happy",
            "diagnostic label=frame-rejected-framing",
            "pong",
            "recovery-after-reject",
        ]
    );
    assert!(yaml.ends_with("  - wait-serial: 'KIVORI-RUN ALL PASS production-runtime'\n"));
}

#[test]
fn a_write_step_names_its_vector_and_injects_its_octets() {
    let all = all();
    let yaml = kivori::scenario::serial_smoke(&all);
    let ping = vector(&all, "ping");
    let expected = format!(
        "  # ping: {}\n  - write-serial: {}\n",
        ping.purpose,
        yaml_bytes(&ping.bytes)
    );
    assert!(yaml.contains(&expected));
    assert!(yaml.contains("name: kivori-serial-smoke\nversion: 1\nauthor: Kivori\nsteps:\n"));
}

#[test]
fn the_catalogue_lists_every_vector_with_its_length() {
    let all = all();
    let text = catalogue(&all);
    assert!(text.contains("# hello_nonce: 0x12345678   ping_t_ms: 4242\nvectors:\n"));
    for v in &all {
        let entry = format!(
            "  - name: {}\n    purpose: '{}'\n    len: {}\n    bytes: {}\n",
            v.name,
            v.purpose,
            v.bytes.len(),
            yaml_bytes(&v.bytes)
        );
        assert!(text.contains(&entry), "missing entry for {}", v.name);
    }
}
