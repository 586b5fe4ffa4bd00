use pylower::compiler::errors::{CompilerError, Construct};

#[test]
fn io_error_message() {
    let e = CompilerError::IOError("'x' not found".to_string());
    assert_eq!(e.message(), "IOError: 'x' not found");
}

#[test]
fn name_error_message() {
    let e = CompilerError::NameError("spam".to_string());
    assert_eq!(e.message(), "NameError: name 'spam' is not defined");
}

#[test]
fn unsupported_messages() {
    assert_eq!(
        CompilerError::Unsupported(Construct::ListTarget).message(),
        "unsupported construct: list assignment target"
    );
    assert_eq!(
        CompilerError::Unsupported(Construct::ImportFrom).message(),
        "unsupported construct: import from"
    );
    assert_eq!(
        CompilerError::Unsupported(Construct::FunctionDef).message(),
        "unsupported construct: function definition"
    );
    assert_eq!(
        CompilerError::Unsupported(Construct::Statement).message(),
        "unsupported construct: statement"
    );
    assert_eq!(
        CompilerError::Unsupported(Construct::Expression).message(),
        "unsupported construct: expression"
    );
}

#[test]
fn construct_descriptions() {
    assert_eq!(Construct::ListTarget.describe(), "list assignment target");
    assert_eq!(Construct::ImportFrom.describe(), "import from");
}

#[test]
fn scope_overflow_message() {
    assert_eq!(CompilerError::ScopeOverflow.message(), "OverflowError: too many names in scope");
}
