use maxfinder::summary::{returns_summarizable, some_function, NewsArticle, Summary, Tweet};

fn horse_tweet() -> Tweet {
    Tweet {
        username: String::from("horse_ebooks"),
        content: String::from("of course, as you probably already know, people"),
        reply: false,
        retweet: false,
    }
}

fn cup_article() -> NewsArticle {
    NewsArticle {
        headline: String::from("Penguins win the Stanley Cup Championship!"),
        location: String::from("Pittsburgh, PA, USA"),
        author: String::from("Iceburgh"),
        content: String::from("The Pittsburgh Penguins once again are the best hockey team in the NHL."),
    }
}

#[test]
fn tweet_author_has_at_prefix() {
    assert_eq!(horse_tweet().summarize_author(), "@horse_ebooks");
}

#[test]
fn default_summary_wraps_author() {
    assert_eq!(horse_tweet().summarize(), "(Read more from @horse_ebooks...)");
}

#[test]
fn article_author_has_no_prefix() {
    assert_eq!(cup_article().summarize_author(), "Iceburgh");
}

#[test]
fn override_bypasses_default_template() {
    let article = cup_article();
    assert_eq!(
        article.summarize(),
        "Penguins win the Stanley Cup Championship!, by Iceburgh (Pittsburgh, PA, USA)"
    );
    assert_ne!(article.summarize(), "(Read more from Iceburgh...)");
}

#[test]
fn some_function_returns_fixed_value() {
    assert_eq!(some_function(horse_tweet(), cup_article()), 10);
}

#[test]
fn returned_summarizable_uses_default_summary() {
    let item = returns_summarizable();
    assert_eq!(item.summarize_author(), "@horse_ebooks");
    assert_eq!(item.summarize(), "(Read more from @horse_ebooks...)");
}
