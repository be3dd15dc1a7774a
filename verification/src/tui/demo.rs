//! The collections a first start shows, so that there is something to try.
use vstd::prelude::*;

use crate::config::DEFAULT_USER_AGENT;
use crate::models::{Auth, BodyType, Collection, HttpMethod, KeyValue, KeyValueView, Request};
use crate::outside::{new_uuid, now_millis};
use crate::text::copy_str;

verus! {

/// The header rows of a demo request: each pair as an enabled row.
pub open spec fn demo_headers(headers: Seq<(&str, &str)>) -> Seq<KeyValueView> {
    headers.map_values(|p: (&str, &str)| KeyValueView { key: p.0@, value: p.1@, enabled: true })
}

/// A demo request: a fresh id, the given name, method, URL, enabled headers, body and body
/// type, and nothing else.
pub fn demo_request(
    name: &str,
    method: HttpMethod,
    url: &str,
    headers: Vec<(&str, &str)>,
    body: &str,
    body_type: BodyType,
) -> (r: Request)
    ensures
        r@.id.len() == 36,
        r@.name == name@,
        r@.method == method,
        r@.url == url@,
        r@.headers == demo_headers(headers@),
        r@.params.len() == 0,
        r@.body == body@,
        r@.body_type == body_type,
        r@.auth == crate::models::AuthView::NoAuth,
        r@.graphql_query is None,
        r@.graphql_variables is None,
        r@.form_data.len() == 0,
        r@.notes.len() == 0,
{
    let mut rows: Vec<KeyValue> = Vec::new();
    let mut i: usize = 0;
    while i < headers.len()
        invariant
            i <= headers.len(),
            rows.deep_view() == demo_headers(headers@.take(i as int)),
        decreases headers.len() - i,
    {
        let row = KeyValue { key: copy_str(headers[i].0), value: copy_str(headers[i].1), enabled: true };
        let ghost r0 = rows;
        rows.push(row);
        proof {
            crate::text::lemma_deep_view_push(r0, rows, row);
            assert(demo_headers(headers@.take(i + 1)) =~= demo_headers(headers@.take(i as int)).push(row@));
        }
        i = i + 1;
    }
    assert(headers@.take(i as int) =~= headers@);
    let r = Request {
        id: new_uuid(),
        name: copy_str(name),
        method,
        url: copy_str(url),
        headers: rows,
        params: Vec::new(),
        body: copy_str(body),
        body_type,
        auth: Auth::NoAuth,
        graphql_query: None,
        graphql_variables: None,
        form_data: Vec::new(),
        notes: String::new(),
    };
    assert(r.params.deep_view() =~= Seq::<KeyValueView>::empty());
    assert(r.form_data.deep_view().len() == 0);
    r
}

/// A demo collection with a fresh id, created now.
pub fn demo_collection(name: &str, requests: Vec<Request>) -> (r: Collection)
    ensures
        r.id@.len() == 36,
        r.name@ == name@,
        r.requests@ == requests@,
        r.folders@.len() == 0,
{
    Collection { id: new_uuid(), name: copy_str(name), folders: Vec::new(), requests, created_at: now_millis() }
}

/// The names of the demo collections, in order.
pub open spec fn demo_collection_names() -> Seq<Seq<char>> {
    seq![
        "🌐 httpbin.org"@,
        "📝 JSONPlaceholder"@,
        "👤 ReqRes"@,
        "🌤️ 天气与地理"@,
        "💰 金融数据"@,
        "🎮 娱乐与生活"@,
        "📻 广播与资讯"@,
        "📡 技术与开发"@,
    ]
}

/// How many requests each demo collection holds, in order.
pub open spec fn demo_request_counts() -> Seq<nat> {
    seq![8nat, 8, 7, 7, 5, 11, 6, 6]
}

/// The demo collections: public web APIs grouped by theme.
#[verifier::rlimit(100)]
pub fn demo_collections() -> (r: Vec<Collection>)
    ensures
        r@.len() == 8,
        forall|i: int| 0 <= i < r@.len() ==> (#[trigger] r@[i]).requests@.len() <= 11 && r@[i].folders@.len() == 0,
        forall|i: int| 0 <= i < r@.len() ==> (#[trigger] r@[i]).name@ == demo_collection_names()[i]
            && r@[i].requests@.len() == demo_request_counts()[i],
{
    let c0 = demo_collection(
        "🌐 httpbin.org",
        vec![
            demo_request(
                "GET 查询参数",
                HttpMethod::GET,
                "https://httpbin.org/get?foo=bar&baz=qux",
                vec![("Accept", "application/json")],
                "",
                BodyType::NoBody,
            ),
            demo_request(
                "POST JSON",
                HttpMethod::POST,
                "https://httpbin.org/post",
                vec![("Content-Type", "application/json"), ("Accept", "application/json")],
                "{\"username\":\"helios\",\"password\":\"demo123\"}",
                BodyType::Json,
            ),
            demo_request(
                "PUT 更新",
                HttpMethod::PUT,
                "https://httpbin.org/put",
                vec![("Content-Type", "application/json"), ("Accept", "application/json")],
                "{\"id\":1,\"name\":\"updated\"}",
                BodyType::Json,
            ),
            demo_request(
                "PATCH 部分更新",
                HttpMethod::PATCH,
                "https://httpbin.org/patch",
                vec![("Content-Type", "application/json"), ("Accept", "application/json")],
                "{\"name\":\"patched\"}",
                BodyType::Json,
            ),
            demo_request(
                "DELETE 资源",
                HttpMethod::DELETE,
                "https://httpbin.org/delete",
                vec![("Accept", "application/json")],
                "",
                BodyType::NoBody,
            ),
            demo_request(
                "GET IP 地址",
                HttpMethod::GET,
                "https://httpbin.org/ip",
                vec![("Accept", "application/json")],
                "",
                BodyType::NoBody,
            ),
            demo_request(
                "GET User-Agent",
                HttpMethod::GET,
                "https://httpbin.org/user-agent",
                vec![("Accept", "application/json")],
                "",
                BodyType::NoBody,
            ),
            demo_request(
                "GET Base64 解码",
                HttpMethod::GET,
                "https://httpbin.org/base64/SGVsbG8gV29ybGQ=",
                vec![("Accept", "text/plain")],
                "",
                BodyType::NoBody,
            ),
        ],
    );
    let c1 = demo_collection(
        "📝 JSONPlaceholder",
        vec![
            demo_request(
                "GET 文章列表",
                HttpMethod::GET,
                "https://jsonplaceholder.typicode.com/posts",
                vec![("Accept", "application/json")],
                "",
                BodyType::NoBody,
            ),
            demo_request(
                "GET 单篇文章",
                HttpMethod::GET,
                "https://jsonplaceholder.typicode.com/posts/1",
                vec![("Accept", "application/json")],
                "",
                BodyType::NoBody,
            ),
            demo_request(
                "GET 文章评论",
                HttpMethod::GET,
                "https://jsonplaceholder.typicode.com/posts/1/comments",
                vec![("Accept", "application/json")],
                "",
                BodyType::NoBody,
            ),
            demo_request(
                "GET 用户列表",
                HttpMethod::GET,
                "https://jsonplaceholder.typicode.com/users",
                vec![("Accept", "application/json")],
                "",
                BodyType::NoBody,
            ),
            demo_request(
                "GET 待办事项",
                HttpMethod::GET,
                "https://jsonplaceholder.typicode.com/todos/1",
                vec![("Accept", "application/json")],
                "",
                BodyType::NoBody,
            ),
            demo_request(
                "POST 新建文章",
                HttpMethod::POST,
                "https://jsonplaceholder.typicode.com/posts",
                vec![("Content-Type", "application/json"), ("Accept", "application/json")],
                "{\"title\":\"Helios Demo\",\"body\":\"A blazing-fast terminal API client.\",\"userId\":1}",
                BodyType::Json,
            ),
            demo_request(
                "PUT 更新文章",
                HttpMethod::PUT,
                "https://jsonplaceholder.typicode.com/posts/1",
                vec![("Content-Type", "application/json"), ("Accept", "application/json")],
                "{\"id\":1,\"title\":\"Updated\",\"body\":\"Updated body\",\"userId\":1}",
                BodyType::Json,
            ),
            demo_request(
                "DELETE 文章",
                HttpMethod::DELETE,
                "https://jsonplaceholder.typicode.com/posts/1",
                vec![("Accept", "application/json")],
                "",
                BodyType::NoBody,
            ),
        ],
    );
    let c2 = demo_collection(
        "👤 ReqRes",
        vec![
            demo_request(
                "GET 用户列表",
                HttpMethod::GET,
                "https://reqres.in/api/users?page=2",
                vec![("Accept", "application/json")],
                "",
                BodyType::NoBody,
            ),
            demo_request(
                "GET 单用户",
                HttpMethod::GET,
                "https://reqres.in/api/users/2",
                vec![("Accept", "application/json")],
                "",
                BodyType::NoBody,
            ),
            demo_request(
                "GET 资源列表",
                HttpMethod::GET,
                "https://reqres.in/api/unknown",
                vec![("Accept", "application/json")],
                "",
                BodyType::NoBody,
            ),
            demo_request(
                "POST 登录",
                HttpMethod::POST,
                "https://reqres.in/api/login",
                vec![("Content-Type", "application/json"), ("Accept", "application/json")],
                "{\"email\":\"eve.holt@reqres.in\",\"password\":\"cityslicka\"}",
                BodyType::Json,
            ),
            demo_request(
                "POST 注册",
                HttpMethod::POST,
                "https://reqres.in/api/register",
                vec![("Content-Type", "application/json"), ("Accept", "application/json")],
                "{\"email\":\"eve.holt@reqres.in\",\"password\":\"pistol\"}",
                BodyType::Json,
            ),
            demo_request(
                "PUT 更新用户",
                HttpMethod::PUT,
                "https://reqres.in/api/users/2",
                vec![("Content-Type", "application/json"), ("Accept", "application/json")],
                "{\"name\":\"Helios\",\"job\":\"API Client\"}",
                BodyType::Json,
            ),
            demo_request(
                "DELETE 用户",
                HttpMethod::DELETE,
                "https://reqres.in/api/users/2",
                vec![("Accept", "application/json")],
                "",
                BodyType::NoBody,
            ),
        ],
    );
    let c3 = demo_collection(
        "🌤️ 天气与地理",
        vec![
            demo_request(
                "GET 北京实时天气",
                HttpMethod::GET,
                "https://api.open-meteo.com/v1/forecast?latitude=39.9&longitude=116.4&current=temperature_2m,relative_humidity_2m,weather_code",
                vec![("Accept", "application/json")],
                "",
                BodyType::NoBody,
            ),
            demo_request(
                "GET 上海实时天气",
                HttpMethod::GET,
                "https://api.open-meteo.com/v1/forecast?latitude=31.2&longitude=121.5&current=temperature_2m,relative_humidity_2m,weather_code",
                vec![("Accept", "application/json")],
                "",
                BodyType::NoBody,
            ),
            demo_request(
                "GET 深圳实时天气",
                HttpMethod::GET,
                "https://api.open-meteo.com/v1/forecast?latitude=22.5&longitude=114.1&current=temperature_2m,relative_humidity_2m,weather_code",
                vec![("Accept", "application/json")],
                "",
                BodyType::NoBody,
            ),
            demo_request(
                "GET 上海天气文本",
                HttpMethod::GET,
                "https://wttr.in/Shanghai?format=j1",
                vec![("Accept", "application/json")],
                "",
                BodyType::NoBody,
            ),
            demo_request(
                "GET IP 地理信息",
                HttpMethod::GET,
                "https://ipapi.co/json/",
                vec![("Accept", "application/json")],
                "",
                BodyType::NoBody,
            ),
            demo_request(
                "GET 上海时间",
                HttpMethod::GET,
                "http://worldtimeapi.org/api/timezone/Asia/Shanghai",
                vec![("Accept", "application/json")],
                "",
                BodyType::NoBody,
            ),
            demo_request(
                "GET 纽约时间",
                HttpMethod::GET,
                "http://worldtimeapi.org/api/timezone/America/New_York",
                vec![("Accept", "application/json")],
                "",
                BodyType::NoBody,
            ),
        ],
    );
    let c4 = demo_collection(
        "💰 金融数据",
        vec![
            demo_request(
                "GET 美元汇率",
                HttpMethod::GET,
                "https://api.exchangerate-api.com/v4/latest/USD",
                vec![("Accept", "application/json")],
                "",
                BodyType::NoBody,
            ),
            demo_request(
                "GET 人民币汇率",
                HttpMethod::GET,
                "https://api.exchangerate-api.com/v4/latest/CNY",
                vec![("Accept", "application/json")],
                "",
                BodyType::NoBody,
            ),
            demo_request(
                "GET 欧元汇率",
                HttpMethod::GET,
                "https://api.exchangerate-api.com/v4/latest/EUR",
                vec![("Accept", "application/json")],
                "",
                BodyType::NoBody,
            ),
            demo_request(
                "GET 加密货币价格",
                HttpMethod::GET,
                "https://api.coingecko.com/api/v3/simple/price?ids=bitcoin,ethereum&vs_currencies=usd,cny",
                vec![("Accept", "application/json")],
                "",
                BodyType::NoBody,
            ),
            demo_request(
                "GET 比特币历史",
                HttpMethod::GET,
                "https://api.coingecko.com/api/v3/coins/bitcoin/market_chart?vs_currency=usd&days=7",
                vec![("Accept", "application/json")],
                "",
                BodyType::NoBody,
            ),
        ],
    );
    let c5 = demo_collection(
        "🎮 娱乐与生活",
        vec![
            demo_request(
                "GET 宝可梦-皮卡丘",
                HttpMethod::GET,
                "https://pokeapi.co/api/v2/pokemon/pikachu",
                vec![("Accept", "application/json")],
                "",
                BodyType::NoBody,
            ),
            demo_request(
                "GET 宝可梦-喷火龙",
                HttpMethod::GET,
                "https://pokeapi.co/api/v2/pokemon/charizard",
                vec![("Accept", "application/json")],
                "",
                BodyType::NoBody,
            ),
            demo_request(
                "GET 随机狗狗图片",
                HttpMethod::GET,
                "https://dog.ceo/api/breeds/image/random",
                vec![("Accept", "application/json")],
                "",
                BodyType::NoBody,
            ),
            demo_request(
                "GET 随机猫咪图片",
                HttpMethod::GET,
                "https://api.thecatapi.com/v1/images/search",
                vec![("Accept", "application/json")],
                "",
                BodyType::NoBody,
            ),
            demo_request(
                "GET 随机用户信息",
                HttpMethod::GET,
                "https://randomuser.me/api/",
                vec![("Accept", "application/json")],
                "",
                BodyType::NoBody,
            ),
            demo_request(
                "GET 随机笑话",
                HttpMethod::GET,
                "https://official-joke-api.appspot.com/random_joke",
                vec![("Accept", "application/json")],
                "",
                BodyType::NoBody,
            ),
            demo_request(
                "GET 随机活动",
                HttpMethod::GET,
                "https://www.boredapi.com/api/activity",
                vec![("Accept", "application/json")],
                "",
                BodyType::NoBody,
            ),
            demo_request(
                "GET 无聊事实",
                HttpMethod::GET,
                "https://uselessfacts.jsph.pl/api/v2/facts/random",
                vec![("Accept", "application/json")],
                "",
                BodyType::NoBody,
            ),
            demo_request(
                "GET 吉卜力电影",
                HttpMethod::GET,
                "https://ghibliapi.vercel.app/films",
                vec![("Accept", "application/json")],
                "",
                BodyType::NoBody,
            ),
            demo_request(
                "GET 一言",
                HttpMethod::GET,
                "https://v1.hitokoto.cn/",
                vec![("Accept", "application/json")],
                "",
                BodyType::NoBody,
            ),
            demo_request(
                "GET 每日诗词",
                HttpMethod::GET,
                "https://v1.jinrishici.com/all.json",
                vec![("Accept", "application/json")],
                "",
                BodyType::NoBody,
            ),
        ],
    );
    let c6 = demo_collection(
        "📻 广播与资讯",
        vec![
            demo_request(
                "GET HackerNews 热榜",
                HttpMethod::GET,
                "https://hacker-news.firebaseio.com/v0/topstories.json",
                vec![("Accept", "application/json")],
                "",
                BodyType::NoBody,
            ),
            demo_request(
                "GET HackerNews 单条",
                HttpMethod::GET,
                "https://hacker-news.firebaseio.com/v0/item/8863.json",
                vec![("Accept", "application/json")],
                "",
                BodyType::NoBody,
            ),
            demo_request(
                "GET Reddit 编程",
                HttpMethod::GET,
                "https://www.reddit.com/r/programming.json",
                vec![("Accept", "application/json"), ("User-Agent", DEFAULT_USER_AGENT)],
                "",
                BodyType::NoBody,
            ),
            demo_request(
                "GET 中国电台",
                HttpMethod::GET,
                "http://de1.api.radio-browser.info/json/stations/search?limit=10&countrycode=CN",
                vec![("Accept", "application/json")],
                "",
                BodyType::NoBody,
            ),
            demo_request(
                "GET 全球热门电台",
                HttpMethod::GET,
                "http://de1.api.radio-browser.info/json/stations/topvote/10",
                vec![("Accept", "application/json")],
                "",
                BodyType::NoBody,
            ),
            demo_request(
                "GET 知乎日报",
                HttpMethod::GET,
                "https://news-at.zhihu.com/api/4/news/latest",
                vec![("Accept", "application/json")],
                "",
                BodyType::NoBody,
            ),
        ],
    );
    let c7 = demo_collection(
        "📡 技术与开发",
        vec![
            demo_request(
                "GET GitHub Torvalds",
                HttpMethod::GET,
                "https://api.github.com/users/torvalds",
                vec![("Accept", "application/json"), ("User-Agent", DEFAULT_USER_AGENT)],
                "",
                BodyType::NoBody,
            ),
            demo_request(
                "GET GitHub Rust 仓库",
                HttpMethod::GET,
                "https://api.github.com/repos/rust-lang/rust",
                vec![("Accept", "application/json"), ("User-Agent", DEFAULT_USER_AGENT)],
                "",
                BodyType::NoBody,
            ),
            demo_request(
                "GET GitHub Trending",
                HttpMethod::GET,
                "https://api.github.com/search/repositories?q=language:rust&sort=stars&order=desc&per_page=5",
                vec![("Accept", "application/json"), ("User-Agent", DEFAULT_USER_AGENT)],
                "",
                BodyType::NoBody,
            ),
            demo_request(
                "GET GitHub Events",
                HttpMethod::GET,
                "https://api.github.com/events?per_page=5",
                vec![("Accept", "application/json"), ("User-Agent", DEFAULT_USER_AGENT)],
                "",
                BodyType::NoBody,
            ),
            demo_request(
                "GET NPM 包信息",
                HttpMethod::GET,
                "https://registry.npmjs.org/react/latest",
                vec![("Accept", "application/json")],
                "",
                BodyType::NoBody,
            ),
            demo_request(
                "GET Docker Hub 镜像",
                HttpMethod::GET,
                "https://hub.docker.com/v2/repositories/library/rust/",
                vec![("Accept", "application/json")],
                "",
                BodyType::NoBody,
            ),
        ],
    );
    vec![c0, c1, c2, c3, c4, c5, c6, c7]
}

} // verus!
