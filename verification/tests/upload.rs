use photo_gallery::upload::{
    classify_field, collect_upload, parse_id_list, upload_name, FieldKind, FieldStream, StreamEnd,
    StreamError, Upload, MAX_FILE_SIZE,
};

#[test]
fn ids_are_read_from_a_list() {
    assert_eq!(parse_id_list("1,2,3"), vec![1, 2, 3]);
    assert_eq!(parse_id_list(" 4 , 5,6 "), vec![4, 5, 6]);
    assert_eq!(parse_id_list("7"), vec![7]);
    assert_eq!(parse_id_list(""), Vec::<i64>::new());
    assert_eq!(parse_id_list(",,"), Vec::<i64>::new());
    assert_eq!(parse_id_list("1,,2,"), vec![1, 2]);
}

#[test]
fn pieces_that_are_no_numbers_are_passed_over() {
    assert_eq!(parse_id_list("a,1,b2,3c,4"), vec![1, 4]);
    assert_eq!(parse_id_list("1 2,3"), vec![3]);
    assert_eq!(parse_id_list("+,-,+-1,--2"), Vec::<i64>::new());
    assert_eq!(parse_id_list("1.5,0x10,١"), Vec::<i64>::new());
}

#[test]
fn signs_zeros_and_limits() {
    assert_eq!(parse_id_list("+5,-6,007,-0"), vec![5, -6, 7, 0]);
    assert_eq!(
        parse_id_list("9223372036854775807,-9223372036854775808"),
        vec![i64::MAX, i64::MIN]
    );
    assert_eq!(
        parse_id_list("9223372036854775808,-9223372036854775809,1"),
        vec![1]
    );
    assert_eq!(parse_id_list("000000000000000000000000000000012"), vec![12]);
    assert_eq!(parse_id_list("99999999999999999999999999999999999999999999,3"), vec![3]);
    assert_eq!(parse_id_list("99999999999999999999x,3"), vec![3]);
}

#[test]
fn white_space_of_every_kind_is_dropped() {
    assert_eq!(parse_id_list("\t1\n,\u{a0}2\u{3000},\u{2003}3\r\n"), vec![1, 2, 3]);
    assert_eq!(parse_id_list("\u{200b}4,5"), vec![5]);
}

#[test]
fn ids_agree_with_the_standard_library() {
    let cases = [
        "1,2", " 1 ,x, 3", "", ",", "+1,-1", "1e3, 12 ", "0,00,-00", " ,\t, 5 ,", "18446744073709551616",
        "- 1,2", "1,2,3,4,5,6,7,8,9,10",
    ];
    for case in cases {
        let expected: Vec<i64> = case
            .split(',')
            .filter_map(|s| {
                let t = s.trim();
                if t.is_empty() {
                    None
                } else {
                    t.parse::<i64>().ok()
                }
            })
            .collect();
        assert_eq!(parse_id_list(case), expected, "for {:?}", case);
    }
}

#[test]
fn fields_are_told_apart_by_name() {
    assert_eq!(classify_field("album", "album", "images", None), FieldKind::Album);
    assert_eq!(classify_field("images", "album", "images", None), FieldKind::Image);
    assert_eq!(classify_field("deleted_images", "album", "new_images", Some("deleted_images")), FieldKind::Deleted);
    assert_eq!(classify_field("deleted_images", "album", "new_images", None), FieldKind::Other);
    assert_eq!(classify_field("", "album", "images", Some("deleted")), FieldKind::Other);
    assert_eq!(classify_field("Album", "album", "images", None), FieldKind::Other);
    assert_eq!(classify_field("x", "x", "x", Some("x")), FieldKind::Album);
    assert_eq!(classify_field("x", "a", "x", Some("x")), FieldKind::Image);
}

#[test]
fn a_file_without_a_name_is_called_unknown() {
    assert_eq!(upload_name(Some("a.png".to_string())), "a.png");
    assert_eq!(upload_name(Some(String::new())), "");
    assert_eq!(upload_name(None), "unknown.jpg");
}

#[test]
fn files_without_bytes_are_dropped() {
    let mut images: Vec<Upload> = Vec::new();
    collect_upload(&mut images, Some("a.jpg".to_string()), vec![1, 2, 3]);
    collect_upload(&mut images, Some("empty.jpg".to_string()), vec![]);
    collect_upload(&mut images, None, vec![9]);
    assert_eq!(images.len(), 2);
    assert_eq!(images[0].filename, "a.jpg");
    assert_eq!(images[0].data, vec![1, 2, 3]);
    assert_eq!(images[1].filename, "unknown.jpg");
    assert_eq!(images[1].data, vec![9]);
}

#[test]
fn a_file_is_collected_from_its_pieces() {
    let mut stream = FieldStream::new();
    assert_eq!(stream.total_bytes(), 0);
    assert_eq!(stream.accept(&[1, 2, 3]), Ok(()));
    assert_eq!(stream.accept(&[]), Ok(()));
    assert_eq!(stream.accept(&[4]), Ok(()));
    assert_eq!(stream.total_bytes(), 4);
    assert_eq!(stream.finish(StreamEnd::Complete), Ok(vec![1, 2, 3, 4]));
    assert_eq!(FieldStream::new().finish(StreamEnd::Complete), Ok(vec![]));
}

#[test]
fn a_file_that_is_cut_short_is_kept_as_far_as_it_came() {
    let mut stream = FieldStream::new();
    stream.accept(&[7, 8]).unwrap();
    assert_eq!(stream.finish(StreamEnd::ReadError), Ok(vec![7, 8]));
    let mut stream = FieldStream::new();
    stream.accept(&[7]).unwrap();
    assert_eq!(stream.finish(StreamEnd::Timeout), Ok(vec![7]));
    assert_eq!(FieldStream::new().finish(StreamEnd::ReadError), Err(StreamError::ReadError));
    assert_eq!(FieldStream::new().finish(StreamEnd::Timeout), Err(StreamError::Timeout));
}

#[test]
fn a_file_may_have_a_hundred_mebibytes_and_no_more() {
    assert_eq!(MAX_FILE_SIZE, 100 * 1024 * 1024);
    let half = vec![0u8; MAX_FILE_SIZE / 2];
    let mut stream = FieldStream::new();
    assert_eq!(stream.accept(&half), Ok(()));
    assert_eq!(stream.accept(&half), Ok(()));
    assert_eq!(stream.total_bytes(), MAX_FILE_SIZE);
    assert_eq!(stream.accept(&[1]), Err(StreamError::TooLarge));
    assert_eq!(stream.total_bytes(), MAX_FILE_SIZE);
    assert_eq!(stream.accept(&[]), Ok(()));
}
