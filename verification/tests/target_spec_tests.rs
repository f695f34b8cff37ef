use guppy::target_spec::parser::{any, identifier, test_equal, value};
use guppy::target_spec::types::{Atom, Expr};
use guppy::target_spec::{eval, EvalError, Platform, TargetFeatures, TargetSpec};

#[test]
fn test_windows() {
    assert_eq!(eval("cfg(windows)", "x86_64-pc-windows-msvc"), Ok(true),);
}

#[test]
fn test_not_target_os() {
    assert_eq!(
        eval(
            "cfg(not(target_os = \"windows\"))",
            "x86_64-unknown-linux-gnu"
        ),
        Ok(true),
    );
}

#[test]
fn test_not_target_os_false() {
    assert_eq!(
        eval(
            "cfg(not(target_os = \"windows\"))",
            "x86_64-pc-windows-msvc"
        ),
        Ok(false),
    );
}

#[test]
fn test_exact_triple() {
    assert_eq!(
        eval("x86_64-unknown-linux-gnu", "x86_64-unknown-linux-gnu"),
        Ok(true),
    );
}

#[test]
fn test_redox() {
    assert_eq!(
        eval(
            "cfg(any(unix, target_os = \"redox\"))",
            "x86_64-unknown-linux-gnu"
        ),
        Ok(true),
    );
}

#[test]
fn test_bogus_families() {
    // Known bogus families.
    for family in &["test", "debug_assertions", "proc_macro"] {
        let cfg = format!("cfg({})", family);
        let cfg_not = format!("cfg(not({}))", family);
        assert_eq!(eval(&cfg, "x86_64-unknown-linux-gnu"), Ok(false));
        assert_eq!(eval(&cfg_not, "x86_64-unknown-linux-gnu"), Ok(true));
    }

    // Unknown bogus families.
    for family in &["foo", "bar", "nonsense"] {
        let cfg = format!("cfg({})", family);
        let cfg_not = format!("cfg(not({}))", family);
        assert!(matches!(
            eval(&cfg, "x86_64-unknown-linux-gnu"),
            Err(EvalError::UnknownOption(_))
        ));
        assert!(matches!(
            eval(&cfg_not, "x86_64-unknown-linux-gnu"),
            Err(EvalError::UnknownOption(_))
        ));
    }
}

fn eval_ext(spec: &str, platform: &str) -> Result<bool, EvalError> {
    let platform = Platform::new(platform, TargetFeatures::features(&["sse", "sse2"]))
        .expect("platform should be found");
    let spec: TargetSpec = spec.parse().unwrap();
    spec.eval(&platform)
}

#[test]
fn test_target_feature() {
    // All target features are accepted by default.
    assert_eq!(
        eval("cfg(target_feature = \"sse\")", "x86_64-unknown-linux-gnu"),
        Ok(true),
    );
    assert_eq!(
        eval(
            "cfg(target_feature = \"atomics\")",
            "x86_64-unknown-linux-gnu",
        ),
        Ok(true),
    );
    assert_eq!(
        eval(
            "cfg(not(target_feature = \"fxsr\"))",
            "x86_64-unknown-linux-gnu",
        ),
        Ok(false),
    );

    assert_eq!(
        eval_ext("cfg(target_feature = \"sse\")", "x86_64-unknown-linux-gnu"),
        Ok(true),
    );
    assert_eq!(
        eval_ext(
            "cfg(not(target_feature = \"sse\"))",
            "x86_64-unknown-linux-gnu",
        ),
        Ok(false),
    );
    assert_eq!(
        eval_ext("cfg(target_feature = \"fxsr\")", "x86_64-unknown-linux-gnu"),
        Ok(false),
    );
    assert_eq!(
        eval_ext(
            "cfg(not(target_feature = \"fxsr\"))",
            "x86_64-unknown-linux-gnu",
        ),
        Ok(true),
    );
}

#[test]
fn test_id() {
    assert_eq!(
        identifier("target"),
        Ok(("".to_string(), Atom::Ident("target".to_string()))),
    );
}

#[test]
fn test_id_underscore() {
    assert_eq!(
        identifier("target_os"),
        Ok(("".to_string(), Atom::Ident("target_os".to_string()))),
    );
}

#[test]
fn test_value() {
    assert_eq!(
        value("\"bar \\\" foo\""),
        Ok(("".to_string(), Atom::Value("bar \" foo".to_string()))),
    );
}

#[test]
fn test_empty_value() {
    assert_eq!(
        value("\"\""),
        Ok(("".to_string(), Atom::Value("".to_string())))
    );
}

#[test]
fn test_any() {
    assert_eq!(
        any("any(unix, target_os = \"redox\")"),
        Ok((
            "".to_string(),
            Expr::Any(vec![
                Expr::TestSet(Atom::Ident("unix".to_string())),
                Expr::TestEqual(
                    Atom::Ident("target_os".to_string()),
                    Atom::Value("redox".to_string())
                )
            ])
        )),
    );
}

#[test]
fn test_test_equal() {
    assert_eq!(
        test_equal("foo = \"bar\""),
        Ok((
            "".to_string(),
            Expr::TestEqual(
                Atom::Ident("foo".to_string()),
                Atom::Value("bar".to_string())
            )
        )),
    );
}
