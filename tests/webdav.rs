use streamplay::webdav::{
    extract_name_from_path, extract_xml_content, parse_webdav_items, parse_webdav_response,
};

#[test]
fn test_parse_webdav_response() {
    let response = r#"<?xml version="1.0" encoding="utf-8" ?>
<D:multistatus xmlns:D="DAV:">
  <D:response>
    <D:href>/music/song1.mp3</D:href>
  </D:response>
</D:multistatus>"#;

    let files = parse_webdav_response(response);
    assert!(files.contains(&"/music/song1.mp3".to_string()));
}

#[test]
fn webdav_response_skips_folders_and_empty_refs() {
    let response = "<D:href>/music/</D:href>\r\n<D:href></D:href>\n<D:href>/a.flac</D:href>\r\n";
    assert_eq!(parse_webdav_response(response), vec!["/a.flac".to_string()]);
}

#[test]
fn webdav_items_from_listing() {
    let response = r#"<D:multistatus xmlns:D="DAV:">
<D:response><D:href>/dav/tianyi/</D:href><D:propstat><D:prop><D:displayname>tianyi</D:displayname><D:resourcetype><D:collection/></D:resourcetype></D:prop></D:propstat></D:response>
<D:response><D:href>/dav/tianyi/music/My%20Song.mp3</D:href><D:propstat><D:prop><D:resourcetype/><D:getcontentlength>1234</D:getcontentlength><D:getlastmodified>Mon, 01 Jan 2024</D:getlastmodified></D:prop></D:propstat></D:response>
<D:response><D:href>/dav/tianyi/music/</D:href><D:propstat><D:prop><D:displayname>music</D:displayname><D:resourcetype><D:collection/></D:resourcetype><D:getcontentlength>0</D:getcontentlength></D:prop></D:propstat></D:response>
</D:multistatus>"#;
    let items = parse_webdav_items(response, "http://host:5244/dav/tianyi");
    assert_eq!(items.len(), 3);
    assert_eq!(items[0].name, "tianyi");
    assert_eq!(items[0].path, "");
    assert!(items[0].is_dir);
    assert_eq!(items[1].name, "My Song.mp3");
    assert_eq!(items[1].path, "music/My%20Song.mp3");
    assert!(!items[1].is_dir);
    assert_eq!(items[1].size, 1234);
    assert_eq!(items[1].modified, "Mon, 01 Jan 2024");
    assert_eq!(items[2].name, "music");
    assert_eq!(items[2].path, "music/");
    assert!(items[2].is_dir);
}

#[test]
fn webdav_items_need_closed_response_and_href() {
    let response = "<D:response><D:href>/</D:href></D:response><D:response><D:href>/x.mp3</D:href>";
    assert!(parse_webdav_items(response, "http://h").is_empty());
    let other = "<D:response><D:href>http://h/x/y.mp3</D:href></D:response>";
    let items = parse_webdav_items(other, "http://h");
    assert_eq!(items.len(), 1);
    assert_eq!(items[0].path, "/x/y.mp3");
    assert_eq!(items[0].name, "y.mp3");
}

#[test]
fn name_from_path_decodes_percent_escapes() {
    assert_eq!(extract_name_from_path("/music/My%20Song.mp3"), "My Song.mp3");
    assert_eq!(extract_name_from_path("/music/folder/"), "folder");
    assert_eq!(extract_name_from_path("/"), "");
    assert_eq!(extract_name_from_path(""), "");
    assert_eq!(extract_name_from_path("plain"), "plain");
    assert_eq!(extract_name_from_path("/a%zz%4"), "a%zz%4");
    assert_eq!(extract_name_from_path("/a%4g+b"), "a%4g+b");
    assert_eq!(extract_name_from_path("/%E4%B8%AD.mp3"), "\u{4e2d}.mp3");
    assert_eq!(extract_name_from_path("/x/%ff"), "%ff");
    assert_eq!(extract_name_from_path("/x%2Fy"), "y");
}

#[test]
fn xml_content_tries_tag_spellings() {
    assert_eq!(
        extract_xml_content("<D:HREF>/a</HREF>", "href"),
        Some("/a".to_string())
    );
    assert_eq!(
        extract_xml_content("<d:href>/b</HREF>", "Href"),
        Some("/b".to_string())
    );
    assert_eq!(extract_xml_content("<D:HREF>/a</D:HREF>", "href"), None);
    assert_eq!(extract_xml_content("<d:href>/b</d:href>", "href"), None);
    assert_eq!(extract_xml_content("nothing", "href"), None);
}
