use rqs::parms::Parms;

#[test]
fn feature_detection() {
    // None.
    {
        let p = Parms::new(vec![], "cwd".into());
        assert_eq!(p.is_dedicated(), false);
        assert_eq!(p.is_standard_quake(), true);
        assert_eq!(p.is_rogue(), false);
        assert_eq!(p.is_hipnotic(), false);
    }

    // All.
    {
        let p = Parms::new(
            vec!["-dedicated".into(), "-rogue".into(), "-hipnotic".into()],
            "cwd".into(),
        );
        assert_eq!(p.is_dedicated(), true);
        assert_eq!(p.is_standard_quake(), false);
        assert_eq!(p.is_rogue(), true);
        assert_eq!(p.is_hipnotic(), true);
    }
}

#[test]
fn parm_find() {
    {
        let p = Parms::new(vec!["zero".into(), "-one".into()], "cwd".into());
        assert_eq!(p.has("zero"), true);
        assert_eq!(p.index("zero"), Some(0));
        assert_eq!(p.has("-one"), true);
        assert_eq!(p.index("-one"), Some(1));
        assert_eq!(p.has("nope"), false);
        assert_eq!(p.index("nope"), None);
    }
}

#[test]
fn value() {
    {
        let p = Parms::new(vec!["-foo".into(), "bar".into()], "cwd".into());
        let val = p.value("-foo");
        assert_eq!(val, Some("bar"));
    }
}

#[test]
fn values() {
    // No param.
    {
        let p = Parms::new(vec!["-foo".into(), "a".into()], "cwd".into());
        let values = p.values("nope");
        assert_eq!(values, None);
    }

    // No value.
    {
        let p = Parms::new(vec!["-foo".into()], "cwd".into());
        let values = p.values("-foo");
        assert_eq!(values, None);
    }

    // No value, two params.
    {
        let p = Parms::new(vec!["-foo".into(), "-bar".into()], "cwd".into());
        let values = p.values("-foo");
        assert_eq!(values, None);
    }

    // Single value.
    {
        let p = Parms::new(vec!["-foo".into(), "a".into()], "cwd".into());
        let values = p.values("-foo").unwrap();
        assert_eq!(values, &["a"]);
    }

    // Two values.
    {
        let p = Parms::new(vec!["-foo".into(), "a".into(), "b".into()], "cwd".into());
        let values = p.values("-foo").unwrap();
        assert_eq!(values, &["a", "b"]);
    }

    // Stop at next param.
    {
        let p = Parms::new(
            vec!["-foo".into(), "a".into(), "b".into(), "-bar".into()],
            "cwd".into(),
        );
        let values = p.values("-foo").unwrap();
        assert_eq!(values, &["a", "b"]);
    }

    // Stop at command.
    {
        let p = Parms::new(
            vec!["-foo".into(), "a".into(), "b".into(), "+bar".into()],
            "cwd".into(),
        );
        let values = p.values("-foo").unwrap();
        assert_eq!(values, &["a", "b"]);
    }
}

#[test]
fn parse_value_decimal() {
    let p = Parms::new(vec!["-foo".into(), "3".into()], "cwd".into());
    assert_eq!(p.parse_value("-foo"), Some(3));

    let p = Parms::new(vec!["-foo".into(), "-42".into()], "cwd".into());
    assert_eq!(p.parse_value("-foo"), Some(-42));

    let p = Parms::new(vec!["-foo".into(), "+17".into()], "cwd".into());
    assert_eq!(p.parse_value("-foo"), Some(17));

    let p = Parms::new(vec!["-foo".into(), "2147483647".into()], "cwd".into());
    assert_eq!(p.parse_value("-foo"), Some(2147483647));

    let p = Parms::new(vec!["-foo".into(), "-2147483648".into()], "cwd".into());
    assert_eq!(p.parse_value("-foo"), Some(-2147483648));

    let p = Parms::new(vec!["-foo".into(), "2147483648".into()], "cwd".into());
    assert_eq!(p.parse_value("-foo"), None);

    let p = Parms::new(vec!["-foo".into(), "12x".into()], "cwd".into());
    assert_eq!(p.parse_value("-foo"), None);

    let p = Parms::new(vec!["-foo".into()], "cwd".into());
    assert_eq!(p.parse_value("-foo"), None);
}

#[test]
fn safe_mode_appends_switches() {
    let p = Parms::new(vec!["-safe".into()], "cwd".into());
    assert!(p.has("-nosound"));
    assert!(p.has("-nolan"));
    assert!(p.has("-nomouse"));

    let p = Parms::new(vec!["-game".into(), "hip".into()], "cwd".into());
    assert!(!p.has("-nosound"));
}
