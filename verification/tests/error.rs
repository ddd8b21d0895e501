use blog_builder::error::Error;

#[test]
fn every_failure_has_its_line() {
    let lines = [
        (Error::CannotGetWorkingDirectory, "[ERROR] cannot get working directory"),
        (Error::UnrecognizedToken, "[ERROR] unrecognized token"),
        (Error::UnrecognizedControlSequence, "[ERROR] unrecongized control sequence"),
        (Error::TooManyHashes, "[ERROR] too many hashes"),
        (Error::UnexpectedEof, "[ERROR] unexpected end of file"),
        (Error::ExpectedTokenOfClass, "[ERROR] expected token of class"),
        (Error::CannotFindFile, "[ERROR] cannot find file"),
        (Error::CannotReadFile, "[ERROR] cannot read file"),
        (Error::CannotOpenFile, "[ERROR] cannot open file"),
        (Error::CannotWriteFile, "[ERROR] cannot write to file"),
        (Error::CannotExtractFileStem, "[ERROR] cannot extract file stem"),
        (Error::CannotReadDir, "[ERROR] cannot read input directory"),
    ];
    for (error, line) in lines {
        assert_eq!(error.message(), line);
    }
}

#[test]
fn context_follows_a_colon() {
    assert_eq!(
        Error::CannotFindFile.message_with("pages/index.txt"),
        "[ERROR] cannot find file: pages/index.txt"
    );
    assert_eq!(Error::CannotOpenFile.message_with(""), "[ERROR] cannot open file: ");
}
