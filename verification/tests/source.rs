use discord_playerlist::source::{
    accept_enriched, stale, Endpoint, FetchError, MAX_BASE_LENGTH, MAX_ENRICHED_AGE,
};
use discord_playerlist::structs::seeder_player_list::{SeederPlayerList, SeederServerInfo};

fn enriched(update_timestamp: i64) -> SeederPlayerList {
    SeederPlayerList {
        _id: "id".to_string(),
        game_id: 7,
        ingame_chat: vec![],
        serverinfo: SeederServerInfo {
            country: String::new(),
            description: String::new(),
            level: String::new(),
            maps: None,
            mode: String::new(),
            name: "Srv".to_string(),
            owner: String::new(),
            region: String::new(),
            servertype: String::new(),
            settings: None,
        },
        teams: vec![],
        time_stamp: String::new(),
        update_timestamp,
    }
}

#[test]
fn snapshot_of_31_seconds_is_rejected_as_stale() {
    let now = 1_700_000_000;
    let result = accept_enriched(Ok(enriched(now - 31)), now);
    assert_eq!(result.err(), Some(FetchError::Stale));
}

#[test]
fn snapshot_of_29_seconds_is_accepted() {
    let now = 1_700_000_000;
    let result = accept_enriched(Ok(enriched(now - 29)), now);
    let list = result.expect("a fresh snapshot was rejected");
    assert_eq!(list.update_timestamp, now - 29);
    assert_eq!(list.game_id, 7);
}

#[test]
fn snapshot_of_exactly_30_seconds_is_accepted() {
    let now = 1_700_000_000;
    assert!(accept_enriched(Ok(enriched(now - 30)), now).is_ok());
    assert!(!stale(now - MAX_ENRICHED_AGE, now));
    assert!(stale(now - MAX_ENRICHED_AGE - 1, now));
}

#[test]
fn snapshot_from_the_future_is_accepted() {
    let now = 1_700_000_000;
    assert!(accept_enriched(Ok(enriched(now + 500)), now).is_ok());
    assert!(!stale(i64::MAX, i64::MIN));
}

#[test]
fn staleness_has_no_overflow() {
    assert!(stale(i64::MIN, i64::MAX));
    assert!(stale(i64::MIN, 0));
    assert!(stale(-31, 0));
    assert!(!stale(-30, 0));
    assert!(!stale(0, 30));
    assert!(stale(0, 31));
    assert!(!stale(i64::MAX, i64::MAX));
}

#[test]
fn failed_fetch_stays_failed() {
    assert_eq!(accept_enriched(Err(FetchError::Network), 0).err(), Some(FetchError::Network));
    assert_eq!(accept_enriched(Err(FetchError::Decode), 0).err(), Some(FetchError::Decode));
    assert_eq!(accept_enriched(Err(FetchError::Stale), 0).err(), Some(FetchError::Stale));
}

#[test]
fn request_addresses_carry_the_server_name() {
    assert_eq!(
        Endpoint::Players.request_url("myserver").as_deref(),
        Some("https://api.gametools.network/bf1/players/?name=myserver")
    );
    assert_eq!(
        Endpoint::SeederPlayers.request_url("myserver").as_deref(),
        Some("https://api.gametools.network/bf1/seederplayers/?name=myserver")
    );
    assert_eq!(
        Endpoint::DetailedServer.request_url("myserver").as_deref(),
        Some("http://api.gametools.network/bf4/detailedserver/?name=myserver")
    );
}

#[test]
fn request_address_encodes_the_server_name() {
    assert_eq!(
        Endpoint::Players.request_url("[ABC] my server #1 & more").as_deref(),
        Some("https://api.gametools.network/bf1/players/?name=%5BABC%5D+my+server+%231+%26+more")
    );
    assert_eq!(
        Endpoint::Players.request_url("").as_deref(),
        Some("https://api.gametools.network/bf1/players/?name=")
    );
}

#[test]
fn request_address_takes_a_long_server_name() {
    assert_eq!(MAX_BASE_LENGTH, 4096);
    let name = "x".repeat(10_000);
    let url = Endpoint::SeederPlayers.request_url(&name).expect("no address was made");
    assert_eq!(url, format!("https://api.gametools.network/bf1/seederplayers/?name={}", name));
}
