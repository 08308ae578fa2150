use cv_site::{month_from_en, month_from_ru};

#[test]
fn lib_tests_parses_english_months() {
    let months = [
        ("January", 1),
        ("February", 2),
        ("March", 3),
        ("April", 4),
        ("May", 5),
        ("June", 6),
        ("July", 7),
        ("August", 8),
        ("September", 9),
        ("October", 10),
        ("November", 11),
        ("December", 12),
    ];
    for (name, number) in months {
        assert_eq!(month_from_en(name), Some(number));
    }
}

#[test]
fn lib_tests_parses_russian_months() {
    let months = [
        ("Январь", 1),
        ("Февраль", 2),
        ("Март", 3),
        ("Апрель", 4),
        ("Май", 5),
        ("Июнь", 6),
        ("Июль", 7),
        ("Август", 8),
        ("Сентябрь", 9),
        ("Октябрь", 10),
        ("Ноябрь", 11),
        ("Декабрь", 12),
    ];
    for (name, number) in months {
        assert_eq!(month_from_ru(name), Some(number));
    }
}

#[test]
fn lib_tests_unknown_months_return_none() {
    assert_eq!(month_from_en("Smarch"), None);
    assert_eq!(month_from_ru("Смарч"), None);
}
