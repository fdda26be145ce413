use iostio_core_derive::transport::{classify, request_url, Method, Query, Reply, STATUS_OK};

#[test]
fn every_query_has_its_path() {
    assert_eq!(Query::NodeInfo.path(), "getNodeInfo");
    assert_eq!(Query::ChainInfo.path(), "getChainInfo");
    assert_eq!(Query::GasRatio.path(), "getGasRatio");
    assert_eq!(Query::RamInfo.path(), "getRAMInfo");
    assert_eq!(Query::ContractStorage.path(), "getContractStorage");
    assert_eq!(Query::ContractStorageFields.path(), "getContractStorageFields");
    assert_eq!(Query::BatchContractStorage.path(), "getBatchContractStorage");
}

#[test]
fn queries_with_parameters_are_posted() {
    assert_eq!(Query::NodeInfo.method(), Method::Get);
    assert_eq!(Query::ChainInfo.method(), Method::Get);
    assert_eq!(Query::GasRatio.method(), Method::Get);
    assert_eq!(Query::RamInfo.method(), Method::Get);
    assert_eq!(Query::ContractStorage.method(), Method::Post);
    assert_eq!(Query::ContractStorageFields.method(), Method::Post);
    assert_eq!(Query::BatchContractStorage.method(), Method::Post);
}

#[test]
fn address_joins_host_and_path_with_a_slash() {
    assert_eq!(
        request_url("https://api.iost.io", Query::NodeInfo.path()),
        "https://api.iost.io/getNodeInfo"
    );
    assert_eq!(request_url("", ""), "/");
    assert_eq!(request_url("http://host/", "x"), "http://host//x");
}

#[test]
fn only_status_200_carries_data() {
    assert_eq!(STATUS_OK, 200);
    assert_eq!(classify(200), Reply::Data);
    assert_eq!(classify(201), Reply::ErrorMessage);
    assert_eq!(classify(199), Reply::ErrorMessage);
    assert_eq!(classify(404), Reply::ErrorMessage);
    assert_eq!(classify(500), Reply::ErrorMessage);
    assert_eq!(classify(0), Reply::ErrorMessage);
}
