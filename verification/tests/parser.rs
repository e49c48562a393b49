//! Parser tests: each grammar rule against accepted and rejected texts.

use fsl::parser::fsl_parser::{FslParser, Node, Rule};

const WITH_COMMENTS: &str = "# This is FSL, a tiny object scripting language\n\
me: @jeff\n\
# declaring two repositories below\n\
+repo me/foo > x\n\
+repo me/bar > y\n\
# all done here\n";

const WITH_LICENSE: &str = "# The MIT License (MIT)\n\
# Copyright (c) 2024 Aliaksei Bialiauski\n\
# Permission is hereby granted, free of charge, to\n\
# any person obtaining a copy of this software ok.\n\
me: @jeff\n\
+repo me/foo > x\n\
+repo me/bar > y\n";

#[test]
fn parses_me() {
    let parse = FslParser::parse(Rule::Me, "me: @jeff").expect("Failed to parse FSL syntax");
    assert_eq!(parse.as_str(), "me: @jeff");
}

#[test]
fn parses_login() {
    for input in ["@jeff", "@x"] {
        let parsed = FslParser::parse(Rule::Login, input).expect("Failed to parse login");
        assert_eq!(parsed.as_str(), input);
    }
}

#[test]
fn rejects_invalid_login() {
    for input in ["@_f", "abc", "@", "testing@", "@."] {
        assert!(FslParser::parse(Rule::Login, input).is_err());
    }
}

#[test]
fn parses_command() {
    let parsed =
        FslParser::parse(Rule::Command, "+repo me/foo > foo").expect("Failed to parse FSL syntax");
    assert_eq!(parsed.as_str(), "+repo me/foo > foo");
}

#[test]
fn parses_object() {
    let parsed =
        FslParser::parse(Rule::Object, "repo me/foo > foo").expect("Failed to parse FSL syntax");
    assert_eq!(parsed.as_str(), "repo me/foo > foo");
    match parsed.node {
        Node::Object(o) => {
            assert_eq!(o.oid, "repo");
            assert_eq!(o.attributes.as_deref(), Some("me/foo"));
            assert_eq!(o.new_ref.as_deref(), Some("foo"));
            assert_eq!(o.application_ref, None);
        }
        _ => panic!("expected an object node"),
    }
}

#[test]
fn parses_object_without_attributes() {
    let parsed = FslParser::parse(Rule::Object, "repo > foo").expect("Failed to parse FSL syntax");
    assert_eq!(parsed.as_str(), "repo > foo");
    match parsed.node {
        Node::Object(o) => {
            assert_eq!(o.oid, "repo");
            assert_eq!(o.attributes, None);
            assert_eq!(o.new_ref.as_deref(), Some("foo"));
        }
        _ => panic!("expected an object node"),
    }
}

#[test]
fn parses_new() {
    let parsed = FslParser::parse(Rule::New, "> x").expect("Failed to parse FSL syntax");
    assert_eq!(parsed.as_str(), "> x");
    match parsed.node {
        Node::New(r) => assert_eq!(r, "x"),
        _ => panic!("expected a new node"),
    }
}

#[test]
fn parses_ref() {
    for input in ["x", "xy", "foo", "test"] {
        let parsed = FslParser::parse(Rule::Reference, input).expect("Failed to parse FSL syntax");
        assert_eq!(parsed.as_str(), input);
    }
}

#[test]
fn rejects_invalid_ref() {
    for input in ["_", "_test", "@", "!", "!bar", ".", "/t", "X", "XYZ"] {
        let rejected = FslParser::parse(Rule::Reference, input);
        assert!(rejected.is_err(), "reference {:?} should be rejected", input);
        let e = rejected.err().expect("Failed to get error");
        assert_eq!(e.rule, Rule::Reference);
        assert_eq!(e.fragment, input);
    }
}

#[test]
fn parses_application() {
    let parsed = FslParser::parse(Rule::Application, "-> x")
        .expect("Failed to parse application syntax");
    assert_eq!(parsed.as_str(), "-> x");
    match parsed.node {
        Node::Application(r) => assert_eq!(r, "x"),
        _ => panic!("expected an application node"),
    }
}

#[test]
fn parses_object_with_application() {
    let parsed = FslParser::parse(Rule::Object, "issue testing -> x")
        .expect("Failed to parse object syntax");
    assert_eq!(parsed.as_str(), "issue testing -> x");
    match parsed.node {
        Node::Object(o) => {
            assert_eq!(o.oid, "issue");
            assert_eq!(o.attributes.as_deref(), Some("testing"));
            assert_eq!(o.new_ref, None);
            assert_eq!(o.application_ref.as_deref(), Some("x"));
        }
        _ => panic!("expected an object node"),
    }
}

#[test]
fn parses_comment() {
    for input in [
        "# test",
        "# UPPER CASE",
        "#  extra space",
        "# with extra words",
        "# with dot in the end.",
        "# test, and another test.",
        "#sticky works too.",
        "# it works THIS way TOO.",
        "# parses with tag inside #",
        "# parses with text after tag # this way",
        "# `special` 'characters' ```test```",
    ] {
        let parsed = FslParser::parse(Rule::Comment, input).expect("failed to parse comment");
        assert_eq!(parsed.as_str(), input);
    }
}

#[test]
fn parses_program() {
    for program in ["me: @jeff\n", "me: @jeff\n+repo me/foo > x\n+repo me/bar > y\n"] {
        let parsed =
            FslParser::parse(Rule::Program, program).expect("Failed to parse FSL syntax");
        assert_eq!(parsed.as_str(), program);
    }
}

#[test]
fn parses_program_with_comments() {
    let pairs = FslParser::parse(Rule::Program, WITH_COMMENTS)
        .expect("failed to parse program with comments");
    assert_eq!(pairs.as_str().len(), 143);
}

#[test]
fn parses_program_with_license() {
    let pairs = FslParser::parse(Rule::Program, WITH_LICENSE)
        .expect("failed to parse program with license");
    assert_eq!(pairs.as_str().len(), 211);
}

#[test]
fn rejects_command_before_me() {
    assert!(FslParser::parse(Rule::Program, "+repo me/foo > x\nme: @jeff\n").is_err());
}

#[test]
fn rejects_program_with_two_me_lines() {
    assert!(FslParser::parse(Rule::Program, "me: @jeff\nme: @bob\n").is_err());
}

#[test]
fn rejects_program_with_invalid_login() {
    for program in ["me: @\n", "me: @.\n", "me: @_f\n+repo me/foo > x\n"] {
        assert!(FslParser::parse(Rule::Program, program).is_err());
    }
}

#[test]
fn rejects_program_with_invalid_reference() {
    assert!(FslParser::parse(Rule::Program, "me: @jeff\n+repo me/foo > X\n").is_err());
}

#[test]
fn parses_object_with_new_and_application() {
    let parsed = FslParser::parse(Rule::Object, "repo me/foo > x -> y")
        .expect("Failed to parse object syntax");
    match parsed.node {
        Node::Object(o) => {
            assert_eq!(o.new_ref.as_deref(), Some("x"));
            assert_eq!(o.application_ref.as_deref(), Some("y"));
        }
        _ => panic!("expected an object node"),
    }
}

#[test]
fn rejects_object_rules_with_trailing_junk() {
    assert!(FslParser::parse(Rule::Object, "repo > foo extra!").is_err());
    assert!(FslParser::parse(Rule::New, "> foo > bar").is_err());
    assert!(FslParser::parse(Rule::Comment, "no hash").is_err());
    assert!(FslParser::parse(Rule::Object, "repo > foo\nrepo > bar").is_err());
}
