use keri::error::serializer_error::Error;
use keri::error::serializer_error::Error::{
    Eof, ExpectedArray, ExpectedArrayComma, ExpectedArrayEnd, ExpectedBoolean, ExpectedEnum,
    ExpectedInteger, ExpectedMap, ExpectedMapColon, ExpectedMapComma, ExpectedMapEnd,
    ExpectedNull, ExpectedString, Message, Syntax, TrailingCharacters,
};

#[test]
fn serializer_error_test_from_str() {
    assert_eq!(&format!("{}", Message("foo".to_string()).message()), "foo");
    assert_eq!(&format!("{}", Eof.message()), "unexpected end of input");
    assert_eq!(&format!("{}", Syntax.message()), "incorrect syntax");
    assert_eq!(&format!("{}", ExpectedBoolean.message()), "incorrect input: expected boolean");
    assert_eq!(&format!("{}", ExpectedInteger.message()), "incorrect input: expected integer");
    assert_eq!(&format!("{}", ExpectedString.message()), "incorrect input: expected string");
    assert_eq!(&format!("{}", ExpectedNull.message()), "incorrect input: expected null");
    assert_eq!(&format!("{}", ExpectedArray.message()), "incorrect input: expected array");
    assert_eq!(&format!("{}", ExpectedArrayComma.message()), "incorrect input: expected array comma");
    assert_eq!(&format!("{}", ExpectedArrayEnd.message()), "incorrect input: expected array end");
    assert_eq!(&format!("{}", ExpectedMap.message()), "incorrect input: expected map");
    assert_eq!(&format!("{}", ExpectedMapColon.message()), "incorrect input: expected map colon");
    assert_eq!(&format!("{}", ExpectedMapComma.message()), "incorrect input: expected map comma");
    assert_eq!(&format!("{}", ExpectedMapEnd.message()), "incorrect input: expected map end");
    assert_eq!(&format!("{}", ExpectedEnum.message()), "incorrect input: expected enum");
    assert_eq!(
        &format!("{}", TrailingCharacters.message()),
        "incorrect input: unexpected trailing characters"
    );
}

#[test]
fn custom_carries_the_message() {
    assert_eq!(Error::custom("missing field"), Message("missing field".to_string()));
    assert_eq!(Error::custom("missing field").message(), "missing field");
}
