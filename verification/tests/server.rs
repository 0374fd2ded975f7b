use keyword_sentiment::server::reply_for;
use keyword_sentiment::server::route;
use keyword_sentiment::server::FileRead;
use keyword_sentiment::server::Route;
use keyword_sentiment::settings::get_server_addr;
use keyword_sentiment::settings::ServerAddr;

#[test]
fn png_path_serves_the_chart() {
    assert_eq!(route("/png"), Route::Chart);
    assert_eq!(Route::Chart.file(), "/tmp/chart.png");
}

#[test]
fn every_other_path_serves_the_index() {
    for path in ["/", "", "/png/", "/PNG", "/png2", "png", "/index.html"] {
        assert_eq!(route(path), Route::Index);
    }
    assert_eq!(Route::Index.file(), "public/index.html");
}

#[test]
fn reply_carries_the_file_or_an_error_status() {
    let found = reply_for(FileRead::Found(vec![1, 2, 3]));
    assert_eq!(found.status, 200);
    assert_eq!(found.body, vec![1, 2, 3]);
    let missing = reply_for(FileRead::Missing);
    assert_eq!(missing.status, 404);
    assert!(missing.body.is_empty());
    let failed = reply_for(FileRead::Failed);
    assert_eq!(failed.status, 500);
    assert!(failed.body.is_empty());
}

#[test]
fn server_addr_defaults_to_localhost_8888() {
    assert_eq!(
        get_server_addr(None, None),
        ServerAddr { address: (127, 0, 0, 1), port: 8888, production: false }
    );
    assert_eq!(
        get_server_addr(None, Some("development")),
        ServerAddr { address: (127, 0, 0, 1), port: 8888, production: false }
    );
}

#[test]
fn server_addr_in_production_binds_all_addresses() {
    assert_eq!(
        get_server_addr(Some("80"), Some("production")),
        ServerAddr { address: (0, 0, 0, 0), port: 80, production: true }
    );
    assert_eq!(get_server_addr(None, Some("Production")).production, false);
    assert_eq!(get_server_addr(None, Some("production ")).address, (127, 0, 0, 1));
}

#[test]
fn server_addr_reads_the_port_number() {
    assert_eq!(get_server_addr(Some("3000"), None).port, 3000);
    assert_eq!(get_server_addr(Some("+3000"), None).port, 3000);
    assert_eq!(get_server_addr(Some("0080"), None).port, 80);
    assert_eq!(get_server_addr(Some("0"), None).port, 0);
    assert_eq!(get_server_addr(Some("65535"), None).port, 65535);
}

#[test]
fn server_addr_falls_back_on_a_bad_port() {
    for text in ["65536", "", "+", "-1", " 80", "80 ", "8o8o", "0x50", "99999999999999999999"] {
        assert_eq!(get_server_addr(Some(text), None).port, 8888);
    }
}
