use oairs::urls::{
    cancel_ft_url, create_ft_url, delete_file_url, list_ft_events_url, retrieve_file_content_url,
    retrieve_file_url,
};

#[test]
fn url_cancel_ft() {
    let ft_id = "ft_id";
    let url = cancel_ft_url(ft_id);

    let expected = "https://api.openai.com/v1/fine-tunes/ft_id/cancel";

    assert_eq!(url, expected);
}

#[test]
fn url_file_delete() {
    let file_id = "file_id";
    let url = delete_file_url(file_id);

    let expected = "https://api.openai.com/v1/files/file_id";

    assert_eq!(url, expected);
}

#[test]
fn url_file_retrieve() {
    let file_id = "file_id";
    let url = retrieve_file_url(file_id);

    let expected = "https://api.openai.com/v1/files/file_id";

    assert_eq!(url, expected);
}

#[test]
fn url_file_retrieve_content() {
    let file_id = "file_id";
    let url = retrieve_file_content_url(file_id);

    let expected = "https://api.openai.com/v1/files/file_id/content";

    assert_eq!(url, expected);
}

#[test]
fn url_ft_create() {
    let url = create_ft_url();

    let expected = "https://api.openai.com/v1/fine-tunes";

    assert_eq!(url, expected);
}

#[test]
fn url_ft_list_events() {
    let ft_id = "ft_id";
    let url = list_ft_events_url(ft_id);

    let expected = "https://api.openai.com/v1/fine-tunes/ft_id/events";

    assert_eq!(url, expected);
}
