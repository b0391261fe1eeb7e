use task_cli::error::CliError;
use task_cli::id::TaskId;

#[test]
fn identifier_text_is_crockford_base32() {
    assert_eq!(TaskId(0).to_string(), "00000000000000000000000000");
    assert_eq!(TaskId(1).to_string(), "00000000000000000000000001");
    assert_eq!(TaskId(31).to_string(), "0000000000000000000000000Z");
    assert_eq!(TaskId(32).to_string(), "00000000000000000000000010");
    assert_eq!(TaskId(u128::MAX).to_string(), "7ZZZZZZZZZZZZZZZZZZZZZZZZZ");
    assert_eq!(
        TaskId(0x41414141414141414141414141414141).to_string(),
        "21850M2GA1850M2GA1850M2GA1"
    );
}

#[test]
fn identifier_is_read_from_its_text() {
    assert_eq!(TaskId::parse("00000000000000000000000000"), Ok(TaskId(0)));
    assert_eq!(TaskId::parse("0000000000000000000000000Z"), Ok(TaskId(31)));
    assert_eq!(
        TaskId::parse("21850M2GA1850M2GA1850M2GA1"),
        Ok(TaskId(0x41414141414141414141414141414141))
    );
    assert_eq!(TaskId::parse("7ZZZZZZZZZZZZZZZZZZZZZZZZZ"), Ok(TaskId(u128::MAX)));
    assert_eq!(
        TaskId::parse("2D9RW50MA499CMAGHM6DD42DTP"),
        Ok(TaskId(0x4d4e385051444a59454234335a413756))
    );
}

#[test]
fn identifier_text_may_be_lower_case() {
    assert_eq!(
        TaskId::parse("2d9rw50ma499cmaghm6dd42dtp"),
        Ok(TaskId(0x4d4e385051444a59454234335a413756))
    );
}

#[test]
fn malformed_identifier_text_is_rejected() {
    assert_eq!(TaskId::parse(""), Err(CliError::InvalidId));
    assert_eq!(TaskId::parse("1"), Err(CliError::InvalidId));
    assert_eq!(TaskId::parse("2D9RW50MA499CMAGHM6DD42DT"), Err(CliError::InvalidId));
    assert_eq!(TaskId::parse("2D9RW50MA499CMAGHM6DD42DTPP"), Err(CliError::InvalidId));
    assert_eq!(TaskId::parse("2D9RW50[A499CMAGHM6DD42DTP"), Err(CliError::InvalidId));
    assert_eq!(TaskId::parse("2D9RW50LA499CMAGHM6DD42DTP"), Err(CliError::InvalidId));
    assert_eq!(TaskId::parse("2D9RW50IA499CMAGHM6DD42DTP"), Err(CliError::InvalidId));
    assert_eq!(TaskId::parse("2D9RW50MA499CMAGHM6DD42DT\u{e9}"), Err(CliError::InvalidId));
    assert_eq!(TaskId::parse("not an identifier"), Err(CliError::InvalidId));
}

#[test]
fn text_of_an_identifier_reads_back() {
    for value in [0u128, 1, 31, 32, 1 << 80, (1 << 80) - 1, u128::MAX, 0x0123456789abcdef0123456789abcdef] {
        let id = TaskId(value);
        assert_eq!(TaskId::parse(&id.to_string()), Ok(id));
        assert_eq!(id.to_string().len(), 26);
    }
}

#[test]
fn decoding_outcome_becomes_identifier_or_error() {
    assert_eq!(TaskId::from_decoded(Ok(5)), Ok(TaskId(5)));
    assert_eq!(TaskId::from_decoded(Ok(u128::MAX)), Ok(TaskId(u128::MAX)));
    assert_eq!(
        TaskId::from_decoded(Err(ulid::DecodeError::InvalidChar)),
        Err(CliError::InvalidId)
    );
    assert_eq!(
        TaskId::from_decoded(Err(ulid::DecodeError::InvalidLength)),
        Err(CliError::InvalidId)
    );
}

#[test]
fn library_agrees_with_ulid_on_text() {
    let id = ulid::Ulid::from_string("01D39ZY06FGSCTVN4T2V9PKHFZ").unwrap();
    assert_eq!(TaskId::parse("01D39ZY06FGSCTVN4T2V9PKHFZ"), Ok(TaskId(id.0)));
    assert_eq!(TaskId(id.0).to_string(), "01D39ZY06FGSCTVN4T2V9PKHFZ");
}
