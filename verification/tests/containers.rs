use wx_cli::bytes::{find_subslice, find_subslice_prefix, matches_at, read_be_u32};
use wx_cli::command::{Arg, FileSlot};
use wx_cli::packed_info::extract_md5_from_packed_info;
use wx_cli::wxgf::{
    check_transcode, ffmpeg_env, finish_transcode, largest_partition, temp_names, transcode_args,
    transcode_to_jpeg, WxgfError,
};

#[test]
fn finds_largest_partition() {
    let mut data = b"wxgf".to_vec();
    data.push(19); // header length
    data.extend_from_slice(&[0; 14]);

    data.extend_from_slice(&8u32.to_be_bytes());
    data.extend_from_slice(&[0, 0, 0, 1]);
    data.extend_from_slice(&[1, 2, 3, 4]);

    let second_offset = data.len() + 4;
    data.extend_from_slice(&12u32.to_be_bytes());
    data.extend_from_slice(&[0, 0, 0, 1]);
    data.extend_from_slice(&[5, 6, 7, 8, 9, 10, 11, 12]);

    let p = largest_partition(&data).unwrap();
    assert_eq!(p.offset, second_offset);
    assert_eq!(p.size, 12);
    assert_eq!(p.container_len, data.len());
}

#[test]
fn rejects_non_wxgf() {
    let err = largest_partition(b"not wxgf").unwrap_err().message();
    assert!(err.contains("WXGF"));
    assert_eq!(err, "invalid WXGF image container");
}

fn container(header: u8, rest: &[u8]) -> Vec<u8> {
    let mut data = b"wxgf".to_vec();
    data.push(header);
    data.extend_from_slice(&[0xee; 14]);
    data.extend_from_slice(rest);
    data
}

#[test]
fn header_as_long_as_the_data_is_refused() {
    let data = container(19, &[]);
    assert_eq!(data.len(), 19);
    let err = largest_partition(&data).unwrap_err();
    assert_eq!(err, WxgfError::InvalidHeaderLength(19));
    assert_eq!(err.message(), "invalid WXGF header length 19");
}

#[test]
fn container_without_a_start_code_has_no_partition() {
    let data = container(5, &[9; 40]);
    let err = largest_partition(&data).unwrap_err();
    assert_eq!(err, WxgfError::NoPartition);
    assert_eq!(err.message(), "WXGF image has no valid HEVC partition");
}

#[test]
fn short_start_code_is_the_second_choice() {
    let data = container(15, &[0, 0, 0, 5, 0, 0, 1, 7, 7]);
    let p = largest_partition(&data).unwrap();
    assert_eq!((p.offset, p.size), (23, 5));
}

#[test]
fn a_length_must_count_the_start_code() {
    let data = container(19, &[0, 0, 0, 1, 0, 0, 0, 1, 9, 9]);
    assert_eq!(largest_partition(&data).unwrap_err(), WxgfError::NoPartition);
    let data = container(19, &[0, 0, 0, 3, 0, 0, 0, 1, 9, 9]);
    assert_eq!(largest_partition(&data).unwrap_err(), WxgfError::NoPartition);
    let data = container(19, &[0, 0, 0, 4, 0, 0, 0, 1, 9, 9]);
    let p = largest_partition(&data).unwrap();
    assert_eq!((p.offset, p.size), (23, 4));
    let data = container(15, &[0, 0, 0, 3, 0, 0, 1, 9]);
    let p = largest_partition(&data).unwrap();
    assert_eq!((p.offset, p.size), (23, 3));
}

#[test]
fn of_equal_partitions_the_last_is_taken() {
    let one: [u8; 10] = [0, 0, 0, 6, 0, 0, 0, 1, 3, 3];
    let mut rest = one.to_vec();
    rest.extend_from_slice(&one);
    let data = container(19, &rest);
    let p = largest_partition(&data).unwrap();
    assert_eq!((p.offset, p.size), (33, 6));
}

#[test]
fn transcoding_takes_the_bitstream_and_the_configured_program() {
    let data = container(19, &[0, 0, 0, 6, 0, 0, 0, 1, 3, 4]);
    let job = transcode_to_jpeg(&data, None).unwrap();
    assert_eq!(job.hevc, vec![0, 0, 0, 1, 3, 4]);
    assert_eq!(job.ffmpeg, "ffmpeg");
    let job = transcode_to_jpeg(&data, Some("/opt/ffmpeg".to_string())).unwrap();
    assert_eq!(job.ffmpeg, "/opt/ffmpeg");
    let jpeg = finish_transcode(job, vec![0xff, 0xd8]).unwrap();
    assert_eq!(jpeg.data, vec![0xff, 0xd8]);
    assert_eq!(jpeg.ffmpeg, "/opt/ffmpeg");
    assert_eq!(jpeg.partition.offset, 23);
    assert_eq!(ffmpeg_env(), "WX_FFMPEG");
}

#[test]
fn a_transcoder_that_fails_or_writes_nothing_is_reported() {
    assert!(check_transcode(true, b"warnings").is_ok());
    let err = check_transcode(false, b"  no such codec\xff\n").unwrap_err();
    assert_eq!(err.message(), "ffmpeg 转码 WXGF/HEVC 失败：no such codec\u{fffd}");
    let long = "错".repeat(900);
    match check_transcode(false, long.as_bytes()).unwrap_err() {
        WxgfError::FfmpegFailed(words) => assert_eq!(words.chars().count(), 800),
        _ => panic!("another error"),
    }
    let data = container(19, &[0, 0, 0, 6, 0, 0, 0, 1, 3, 4]);
    let job = transcode_to_jpeg(&data, None).unwrap();
    let err = finish_transcode(job, Vec::new()).unwrap_err();
    assert_eq!(err, WxgfError::EmptyOutput);
    assert_eq!(err.message(), "ffmpeg 转码 WXGF/HEVC 成功但没有输出 JPEG 数据");
}

#[test]
fn transcoder_arguments_and_files() {
    let args = transcode_args();
    assert_eq!(args.len(), 15);
    assert!(matches!(&args[0], Arg::Text(t) if t == "-y"));
    assert!(matches!(&args[5], Arg::Text(t) if t == "hevc"));
    assert!(matches!(&args[7], Arg::File(FileSlot::Input)));
    assert!(matches!(&args[14], Arg::File(FileSlot::Output)));
    let names = temp_names(12, 1_700_000_000_000_000_000, 3);
    assert_eq!(names.input, "wx-cli-wxgf-12-1700000000000000000-3.hevc");
    assert_eq!(names.output, "wx-cli-wxgf-12-1700000000000000000-3.jpg");
}

#[test]
fn extract_md5_main_path() {
    let mut blob = vec![0xAA, 0xBB, 0xCC];
    blob.extend_from_slice(&[0x12, 0x22, 0x0A, 0x20]);
    blob.extend_from_slice(b"deadbeefcafebabe1234567890abcdef");
    blob.extend_from_slice(&[0xFF, 0xFF]);
    assert_eq!(
        extract_md5_from_packed_info(&blob),
        Some("deadbeefcafebabe1234567890abcdef".to_string())
    );
}

#[test]
fn extract_md5_fallback_no_marker() {
    let mut blob = vec![0xFF, 0x00];
    blob.extend_from_slice(b"00112233445566778899aabbccddeeff");
    blob.extend_from_slice(&[0x01]);
    assert_eq!(
        extract_md5_from_packed_info(&blob),
        Some("00112233445566778899aabbccddeeff".to_string())
    );
}

#[test]
fn extract_md5_uppercase_normalized_to_lower() {
    let mut blob = vec![0x12, 0x22, 0x0A, 0x20];
    blob.extend_from_slice(b"DEADBEEFCAFEBABE1234567890ABCDEF");
    assert_eq!(
        extract_md5_from_packed_info(&blob),
        Some("deadbeefcafebabe1234567890abcdef".to_string())
    );
}

#[test]
fn extract_md5_returns_none_on_garbage() {
    let blob = vec![0; 16];
    assert!(extract_md5_from_packed_info(&blob).is_none());
}

#[test]
fn marked_digest_wins_over_an_earlier_run() {
    let mut blob = b"11111111111111111111111111111111".to_vec();
    blob.push(0xff);
    blob.extend_from_slice(&[0x12, 0x22, 0x0A, 0x20]);
    blob.extend_from_slice(b"22222222222222222222222222222222");
    assert_eq!(
        extract_md5_from_packed_info(&blob),
        Some("22222222222222222222222222222222".to_string())
    );
}

#[test]
fn a_marker_without_a_digest_falls_back() {
    let mut blob = vec![0x12, 0x22, 0x0A, 0x20];
    blob.extend_from_slice(b"zz");
    blob.extend_from_slice(b"33333333333333333333333333333333");
    assert_eq!(
        extract_md5_from_packed_info(&blob),
        Some("33333333333333333333333333333333".to_string())
    );
}

#[test]
fn find_silk_header_after_wechat_prefix() {
    assert_eq!(
        find_subslice_prefix(b"\x02#!SILK_V3", b"#!SILK", 8),
        Some(1)
    );
    assert_eq!(find_subslice_prefix(b"#!SILK_V3", b"#!SILK", 8), Some(0));
}

#[test]
fn subslices() {
    assert_eq!(find_subslice(b"abcabc", b"ca"), Some(2));
    assert_eq!(find_subslice(b"abc", b""), None);
    assert_eq!(find_subslice(b"ab", b"abc"), None);
    assert_eq!(find_subslice_prefix(b"0123456789#", b"#", 9), None);
    assert_eq!(find_subslice_prefix(b"0123456789#", b"#", 10), Some(10));
    assert_eq!(find_subslice_prefix(b"abc", b"", 8), None);
    assert!(matches_at(b"abcd", b"cd", 2));
    assert!(!matches_at(b"abcd", b"cd", 3));
    assert_eq!(read_be_u32(&[1, 2, 3, 4], 0), 0x0102_0304);
}
