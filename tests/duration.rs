use cv_site::{format_duration_en, format_duration_ru, InlineStartError};

#[test]
fn english_durations() {
    assert_eq!(format_duration_en(0), "0 months");
    assert_eq!(format_duration_en(-7), "0 months");
    assert_eq!(format_duration_en(1), "1 month");
    assert_eq!(format_duration_en(11), "11 months");
    assert_eq!(format_duration_en(12), "1 year");
    assert_eq!(format_duration_en(14), "1 year 2 months");
    assert_eq!(format_duration_en(25), "2 years 1 month");
    assert_eq!(format_duration_en(120), "10 years");
}

#[test]
fn russian_durations() {
    assert_eq!(format_duration_ru(0), "0 месяцев");
    assert_eq!(format_duration_ru(-1), "0 месяцев");
    assert_eq!(format_duration_ru(1), "1 месяц");
    assert_eq!(format_duration_ru(3), "3 месяца");
    assert_eq!(format_duration_ru(7), "7 месяцев");
    assert_eq!(format_duration_ru(14), "1 год 2 месяца");
    assert_eq!(format_duration_ru(36), "3 года");
    assert_eq!(format_duration_ru(65), "5 лет 5 месяцев");
}

#[test]
fn inline_start_error_messages() {
    assert_eq!(InlineStartError::Parse.message(), "could not parse inline start");
    let io = InlineStartError::Io(std::io::Error::new(std::io::ErrorKind::NotFound, "gone"));
    assert_eq!(io.message(), "failed to read profiles/cv/en/CV.MD");
}
