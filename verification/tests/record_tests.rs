use mobcsv::record::Record;
use mobcsv::record::is_good_ph;
use mobcsv::record::remove_bad_chars;
use mobcsv::record::standardize_ph;

#[test]
fn should_detect_bad_numbers() {
    let bad_record = Record::new("20111bad", "test1", 0);
    let bad_record2 = Record::new("hah2011166130", "test2", 0);
    let bad_record3 = Record::new("1232131", "test3", 0);
    let bad_record4 = Record::new("00", "test4", 0);
    let bad_record5 = Record::new("2011166130", "test5", 0);
    assert!(is_good_ph(bad_record).is_none());
    assert!(is_good_ph(bad_record2).is_none());
    assert!(is_good_ph(bad_record3).is_none());
    assert!(is_good_ph(bad_record4).is_none());
    assert!(is_good_ph(bad_record5).is_none());
}

#[test]
fn should_pass_good_numbers() {
    let good_record = Record::new("201116613061", "test1", 0);
    let good_record2 = Record::new("00201116613061", "test2", 0);
    let good_record3 = Record::new("+2(0111)6613061", "test3", 0);
    let good_record4 = Record::new("+2011-1661-3061", "test4", 0);
    let good_record5 = Record::new("+201116613061", "test5", 0);
    let good_record6 = Record::new("1116613061", "test6", 0);
    let good_record7 = Record::new("540029129", "test7", 0);
    let good_record8 = Record::new("5400 291 29", "test8", 0);
    assert!(is_good_ph(good_record).is_some());
    assert!(is_good_ph(good_record2).is_some());
    assert!(is_good_ph(good_record3).is_some());
    assert!(is_good_ph(good_record4).is_some());
    assert!(is_good_ph(good_record5).is_some());
    assert!(is_good_ph(good_record6).is_some());
    assert!(is_good_ph(good_record7).is_some());
    assert!(is_good_ph(good_record8).is_some());
}

#[test]
fn should_standardize_ph() {
    let good_record = Record::new("1116613061", "test1", 0);
    let good_record2 = Record::new("511661306", "test2", 0);
    assert_eq!(standardize_ph(good_record).ph, "201116613061");
    assert_eq!(standardize_ph(good_record2).ph, "966511661306");
}

#[test]
fn remove_bad_chars_cleans_only_the_phone() {
    let rec = Record::new(" +2011-1661-3061 ", "keep me", 4);
    let cleaned = remove_bad_chars(rec);
    assert_eq!(cleaned.ph, "201116613061");
    assert_eq!(cleaned.name, "keep me");
    assert_eq!(cleaned.count, 4);
}

#[test]
fn accepted_record_keeps_name_and_count() {
    let rec = Record::new("00201116613061", "erin", 9);
    let good = is_good_ph(rec).unwrap();
    assert_eq!(good.ph, "201116613061");
    assert_eq!(good.name, "erin");
    assert_eq!(good.count, 9);
}
