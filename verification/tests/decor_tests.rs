use stdecor::decor::{Decor, DecorError};

#[test]
fn lib_test_decor() -> Result<(), DecorError> {
    let decor = Decor::new("1234", false, None)?;
    assert_eq!(
        decor.decorate("abcd").into_iter().collect::<Vec<_>>(),
        vec!["1234 abcd\n"]
    );
    Ok(())
}

#[test]
fn lib_test_decor_wrap() -> Result<(), DecorError> {
    let decor = Decor::new("1234", false, Some(7))?;
    assert_eq!(
        decor.decorate("abcde").into_iter().collect::<Vec<_>>(),
        vec!["1234 ab\n", "1234 cd\n", "1234 e\n"]
    );
    Ok(())
}

#[test]
fn test_decor_wrap_multibyte() -> Result<(), DecorError> {
    // "p " is 2 chars, width 3 → 1 char of content per line
    let decor = Decor::new("p", false, Some(3))?;
    assert_eq!(
        decor.decorate("日本語").into_iter().collect::<Vec<_>>(),
        vec!["p 日\n", "p 本\n", "p 語\n"]
    );
    Ok(())
}

#[test]
fn test_decor_multibyte_prefix() -> Result<(), DecorError> {
    // "日" is 3 bytes but 1 char — prefix fits in width 5
    let decor = Decor::new("日", false, Some(5))?;
    assert_eq!(
        decor.decorate("abcde").into_iter().collect::<Vec<_>>(),
        vec!["日 abc\n", "日 de\n"]
    );
    Ok(())
}

#[test]
fn test_decor_multibyte_prefix_overflow() -> Result<(), DecorError> {
    // "日本語" = 9 bytes, 3 chars — too wide for terminal of 3
    let result = Decor::new("日本語", false, Some(3));
    assert!(result.is_err());
    Ok(())
}

#[test]
fn test_decor_multibyte_no_unnecessary_wrap() -> Result<(), DecorError> {
    // "日本" = 6 bytes, 2 chars — fits in width 5, no wrapping needed
    let decor = Decor::new("", false, Some(5))?;
    assert_eq!(
        decor.decorate("日本").into_iter().collect::<Vec<_>>(),
        vec!["日本\n"]
    );
    Ok(())
}

#[test]
fn stdecor_tests_test_decor() -> Result<(), DecorError> {
    let decor = Decor::new("1234", false, None)?;
    assert_eq!(
        decor.decorate("abcd").into_iter().collect::<Vec<_>>(),
        vec!["1234 abcd\n"]
    );
    Ok(())
}

#[test]
fn stdecor_tests_test_decor_wrap() -> Result<(), DecorError> {
    let decor = Decor::new("1234", false, Some(7))?;
    assert_eq!(
        decor.decorate("abcde").into_iter().collect::<Vec<_>>(),
        vec!["1234 ab\n", "1234 cd\n", "1234 e\n"]
    );
    Ok(())
}
