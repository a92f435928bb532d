use mobcsv::pipeline::process_records;
use mobcsv::record::Record;
use mobcsv::record::is_good_ph;

#[test]
fn pipeline_filters_and_normalizes_in_order() {
    let rows = vec![
        Record::new("1116613061", "alice", 3),
        Record::new("20111bad", "bob", 1),
        Record::new("5400 291 29", "carol", 2),
        Record::new("1232131", "dave", 8),
    ];
    let out = process_records(rows);
    assert_eq!(out.len(), 2);
    assert_eq!(out[0].ph, "201116613061");
    assert_eq!(out[0].name, "alice");
    assert_eq!(out[0].count, 3);
    assert_eq!(out[1].ph, "966540029129");
    assert_eq!(out[1].name, "carol");
    assert_eq!(out[1].count, 2);
}

#[test]
fn pipeline_of_nothing_is_nothing() {
    let out = process_records(Vec::new());
    assert_eq!(out.len(), 0);
}

#[test]
fn accepted_record_round_trips_through_csv() {
    let rec = Record::new("+2(0111)6613061", "dina", 7);
    let good = is_good_ph(rec).unwrap();
    let mut wtr = csv::Writer::from_writer(Vec::new());
    wtr.write_record(&[good.ph.as_str(), good.name.as_str(), good.count.to_string().as_str()])
        .unwrap();
    let data = wtr.into_inner().unwrap();
    let mut rdr = csv::ReaderBuilder::new().has_headers(false).from_reader(data.as_slice());
    let row = rdr.records().next().unwrap().unwrap();
    assert_eq!(&row[0], "201116613061");
    assert_eq!(&row[1], "dina");
    assert_eq!(&row[2], "7");
}
